use com_notifier::activation::{
    activation_uri, parse_activation_args, putty_command, startup, Action, Startup, BAUD,
};

fn putty(port: &str) -> Action {
    Action::OpenPutty { port: port.to_string(), baud: 9600 }
}

#[test]
fn activation_with_closing_slash_opens_its_port() {
    assert_eq!(parse_activation_args("comport://COM3/"), Some(putty("COM3")));
    assert_eq!(parse_activation_args("comport://COM12/"), Some(putty("COM12")));
    assert_eq!(BAUD, 9600);
}

#[test]
fn activation_ignores_second_and_fourth_part() {
    assert_eq!(parse_activation_args("comport:/x/COM3/y"), Some(putty("COM3")));
    assert_eq!(parse_activation_args("comport:/host/COM3/9600"), Some(putty("COM3")));
}

#[test]
fn activation_port_may_be_empty_or_not_ascii() {
    assert_eq!(parse_activation_args("comport:///"), Some(putty("")));
    assert_eq!(parse_activation_args("comport://Порт😀/"), Some(putty("Порт😀")));
}

#[test]
fn activation_needs_exactly_four_parts() {
    assert_eq!(parse_activation_args(""), None);
    assert_eq!(parse_activation_args("comport:"), None);
    assert_eq!(parse_activation_args("comport://COM3"), None);
    assert_eq!(parse_activation_args("comport://COM3/9600/"), None);
}

#[test]
fn activation_needs_its_scheme() {
    assert_eq!(parse_activation_args("http://COM3/"), None);
    assert_eq!(parse_activation_args("COMPORT://COM3/"), None);
    assert_eq!(parse_activation_args("comport//COM3/"), None);
    assert_eq!(parse_activation_args("/comport:/COM3/"), None);
}

#[test]
fn uri_of_a_notification_is_read_as_its_port() {
    assert_eq!(activation_uri("COM7"), "comport://COM7");
    let mut arg = activation_uri("COM7");
    assert_eq!(parse_activation_args(&arg), None);
    arg.push('/');
    assert_eq!(parse_activation_args(&arg), Some(putty("COM7")));
}

#[test]
fn startup_without_argument_watches() {
    assert_eq!(startup(&vec!["com-notifier.exe".to_string()]), Startup::Watch);
    assert_eq!(startup(&Vec::new()), Startup::Watch);
}

#[test]
fn startup_with_argument_launches_or_exits() {
    let args = vec!["com-notifier.exe".to_string(), "comport://COM3/".to_string()];
    assert_eq!(startup(&args), Startup::Launch(putty("COM3")));
    let args = vec!["com-notifier.exe".to_string(), "--help".to_string()];
    assert_eq!(startup(&args), Startup::Exit);
    let args = vec!["x".to_string(), "--help".to_string(), "comport://COM3/".to_string()];
    assert_eq!(startup(&args), Startup::Exit);
}

#[test]
fn putty_is_started_on_the_serial_port() {
    let command = putty_command("COM3");
    assert_eq!(command.program, "C:\\Program Files\\PuTTY\\putty.exe");
    assert_eq!(command.args, vec!["-serial".to_string(), "COM3".to_string()]);
}
