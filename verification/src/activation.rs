//! What the program was started for, and the command that opens a terminal on a port.
use vstd::prelude::*;

use crate::text;

verus! {

/// The baud rate for a terminal on a port.
pub const BAUD: u32 = 9600;

/// What a click on a notification asks for.
#[derive(Debug, Clone, PartialEq, Eq)]
pub enum Action {
    /// Open PuTTY on a serial port.
    OpenPutty { port: String, baud: u32 },
}

/// The argument that stands for opening PuTTY on `port`.
pub open spec fn uri_of(port: Seq<char>) -> Seq<char> {
    "comport://"@ + port
}

/// The port that an activation argument names: it has exactly four `/`-separated parts, the
/// first is `comport:`, and the third is the port.
pub open spec fn port_in_argument(arg: Seq<char>) -> Option<Seq<char>> {
    let parts = text::fields(arg, '/');
    if parts.len() == 4 && parts[0] == "comport:"@ {
        Some(parts[2])
    } else {
        None
    }
}

/// The argument that a notification hands over for `port`.
pub fn activation_uri(port: &str) -> (uri: String)
    ensures
        uri@ == uri_of(port@),
        uri@ == "comport://"@ + port@,
{
    let mut uri: String = "comport://".to_owned();
    uri.append(port);
    uri
}

/// Reads an activation argument.
pub fn parse_activation_args(arg: &str) -> (action: Option<Action>)
    ensures
        action is Some <==> port_in_argument(arg@) is Some,
        action matches Some(Action::OpenPutty { port, baud }) ==> port_in_argument(arg@) == Some(
            port@,
        ) && baud == BAUD,
{
    let parts: Vec<String> = text::split(arg, '/');
    let ghost fields = text::fields(arg@, '/');
    assert(parts@.len() == fields.len());
    let scheme: String = "comport:".to_owned();
    if parts.len() == 4 {
        assert(fields[0] == parts@[0]@ && fields[2] == parts@[2]@);
        if parts[0] == scheme {
            return Some(Action::OpenPutty { port: parts[2].clone(), baud: BAUD });
        }
    }
    None
}

/// What to do when the program starts.
#[derive(Debug, Clone, PartialEq, Eq)]
pub enum Startup {
    /// Carry out an action, then exit.
    Launch(Action),
    /// Exit at once: the argument asks for nothing known.
    Exit,
    /// Watch for port changes.
    Watch,
}

/// Decides what to do from the command line, whose first entry is the program itself.
pub fn startup(args: &Vec<String>) -> (decision: Startup)
    ensures
        decision is Watch <==> args.len() <= 1,
        decision is Exit <==> args.len() > 1 && port_in_argument(args[1]@) is None,
        decision matches Startup::Launch(Action::OpenPutty { port, baud }) ==> args.len() > 1
            && port_in_argument(args[1]@) == Some(port@) && baud == BAUD,
{
    if args.len() > 1 {
        match parse_activation_args(args[1].as_str()) {
            Some(action) => Startup::Launch(action),
            None => Startup::Exit,
        }
    } else {
        Startup::Watch
    }
}

/// A program and the arguments to start it with.
#[derive(Debug, Clone, PartialEq, Eq)]
pub struct CommandLine {
    pub program: String,
    pub args: Vec<String>,
}

/// The command that opens PuTTY on a serial port.
pub fn putty_command(port: &str) -> (command: CommandLine)
    ensures
        command.program@ == "C:\\Program Files\\PuTTY\\putty.exe"@,
        text::texts(command.args@) == seq!["-serial"@, port@],
{
    let mut args: Vec<String> = Vec::new();
    args.push("-serial".to_owned());
    args.push(port.to_owned());
    assert(text::texts(args@) =~= seq!["-serial"@, port@]);
    CommandLine { program: "C:\\Program Files\\PuTTY\\putty.exe".to_owned(), args }
}

/// The argument `comport:/a/port/b`.
pub open spec fn argument_of(a: Seq<char>, port: Seq<char>, b: Seq<char>) -> Seq<char> {
    text::join(seq!["comport:"@, a, port, b], '/')
}

/// The shape of an accepted argument: an argument names `port` exactly if it is
/// `comport:/a/port/b` for some `a` and `b`, where none of the three holds a `/`.
pub proof fn accepted_arguments(arg: Seq<char>, port: Seq<char>)
    ensures
        port_in_argument(arg) == Some(port) <==> exists|a: Seq<char>, b: Seq<char>|
            {
                &&& !a.contains('/') && !port.contains('/') && !b.contains('/')
                &&& arg == #[trigger] argument_of(a, port, b)
            },
{
    reveal_strlit("comport:");
    let scheme = "comport:"@;
    assert(!scheme.contains('/'));
    let parts = text::fields(arg, '/');
    text::join_of_fields(arg, '/');
    if port_in_argument(arg) == Some(port) {
        let a = parts[1];
        let b = parts[3];
        assert(parts =~= seq![scheme, a, port, b]);
        assert(!parts[1].contains('/') && !parts[2].contains('/') && !parts[3].contains('/'));
        assert(arg == argument_of(a, port, b));
    }
    if exists|a: Seq<char>, b: Seq<char>|
        {
            &&& !a.contains('/') && !port.contains('/') && !b.contains('/')
            &&& arg == #[trigger] argument_of(a, port, b)
        } {
        let (a, b) = choose|a: Seq<char>, b: Seq<char>|
            {
                &&& !a.contains('/') && !port.contains('/') && !b.contains('/')
                &&& arg == #[trigger] argument_of(a, port, b)
            };
        let four = seq![scheme, a, port, b];
        assert forall|i: int| 0 <= i < four.len() implies !(#[trigger] four[i]).contains('/') by {
            if i == 0 {
            } else if i == 1 {
            } else if i == 2 {
            } else {
                assert(i == 3);
            }
        }
        text::fields_of_join(four, '/');
    }
}

/// A click reaches the port it was offered for: the argument of a notification for `port`, with
/// the `/` that closes its authority part, is read as that port. Without that `/` the argument
/// is not accepted.
pub proof fn activation_names_its_port(port: Seq<char>)
    requires
        !port.contains('/'),
    ensures
        port_in_argument(uri_of(port).push('/')) == Some(port),
        port_in_argument(uri_of(port)) is None,
{
    reveal_strlit("comport:");
    reveal_strlit("comport://");
    let scheme = "comport:"@;
    let empty = Seq::<char>::empty();
    assert(!scheme.contains('/'));
    assert(uri_of(port) =~= scheme + seq!['/'] + (empty + seq!['/'] + port));
    text::fields_of_head_and_rest(scheme, empty + seq!['/'] + port, '/');
    text::fields_of_head_and_rest(empty, port, '/');
    text::fields_of_single(port, '/');
    assert(uri_of(port).push('/') =~= scheme + seq!['/'] + (empty + seq!['/'] + (port + seq!['/']
        + empty)));
    text::fields_of_head_and_rest(
        scheme,
        empty + seq!['/'] + (port + seq!['/'] + empty),
        '/',
    );
    text::fields_of_head_and_rest(empty, port + seq!['/'] + empty, '/');
    text::fields_of_head_and_rest(port, empty, '/');
    text::fields_of_single(empty, '/');
}

/// The argument of a notification is the scheme and two slashes, followed by the port and
/// nothing else: ten characters that are the same for every port, then those of the port. Cut at
/// its slashes, it is the scheme, an empty part and the port.
pub proof fn uri_is_scheme_and_port(port: Seq<char>)
    ensures
        uri_of(port) == seq!['c', 'o', 'm', 'p', 'o', 'r', 't', ':', '/', '/'] + port,
        !port.contains('/') ==> text::fields(uri_of(port), '/') == seq![
            seq!['c', 'o', 'm', 'p', 'o', 'r', 't', ':'],
            Seq::<char>::empty(),
            port,
        ],
{
    reveal_strlit("comport://");
    let scheme = seq!['c', 'o', 'm', 'p', 'o', 'r', 't', ':'];
    let empty = Seq::<char>::empty();
    assert("comport://"@ =~= seq!['c', 'o', 'm', 'p', 'o', 'r', 't', ':', '/', '/']);
    if !port.contains('/') {
        assert(!scheme.contains('/'));
        assert(uri_of(port) =~= scheme + seq!['/'] + (empty + seq!['/'] + port));
        text::fields_of_head_and_rest(scheme, empty + seq!['/'] + port, '/');
        text::fields_of_head_and_rest(empty, port, '/');
        text::fields_of_single(port, '/');
        assert(text::fields(uri_of(port), '/') =~= seq![scheme, empty, port]);
    }
}

/// Different ports have different arguments.
pub proof fn uri_tells_ports_apart(port: Seq<char>, other: Seq<char>)
    requires
        uri_of(port) == uri_of(other),
    ensures
        port == other,
{
    uri_is_scheme_and_port(port);
    uri_is_scheme_and_port(other);
    assert(port =~= uri_of(port).skip(10));
    assert(other =~= uri_of(other).skip(10));
}

/// Every argument of four parts that begins with the scheme names its third part, whatever the
/// second and the fourth are.
pub proof fn four_parts_name_the_third(a: Seq<char>, port: Seq<char>, b: Seq<char>)
    requires
        !a.contains('/'),
        !port.contains('/'),
        !b.contains('/'),
    ensures
        port_in_argument(
            seq!['c', 'o', 'm', 'p', 'o', 'r', 't', ':'] + seq!['/'] + (a + seq!['/'] + (port
                + seq!['/'] + b)),
        ) == Some(port),
{
    reveal_strlit("comport:");
    let scheme = seq!['c', 'o', 'm', 'p', 'o', 'r', 't', ':'];
    assert("comport:"@ =~= scheme);
    assert(!scheme.contains('/'));
    text::fields_of_head_and_rest(scheme, a + seq!['/'] + (port + seq!['/'] + b), '/');
    text::fields_of_head_and_rest(a, port + seq!['/'] + b, '/');
    text::fields_of_head_and_rest(port, b, '/');
    text::fields_of_single(b, '/');
}

/// No other argument names a port: one that does is the scheme, a second part, that port and a
/// fourth part, between three slashes, and none of the parts holds a slash.
pub proof fn only_four_parts_name_a_port(arg: Seq<char>, port: Seq<char>) -> (outer: (
    Seq<char>,
    Seq<char>,
))
    requires
        port_in_argument(arg) == Some(port),
    ensures
        !outer.0.contains('/'),
        !port.contains('/'),
        !outer.1.contains('/'),
        arg == seq!['c', 'o', 'm', 'p', 'o', 'r', 't', ':'] + seq!['/'] + (outer.0 + seq!['/'] + (
        port + seq!['/'] + outer.1)),
{
    reveal_strlit("comport:");
    let scheme = seq!['c', 'o', 'm', 'p', 'o', 'r', 't', ':'];
    assert("comport:"@ =~= scheme);
    let parts = text::fields(arg, '/');
    text::join_of_fields(arg, '/');
    reveal_with_fuel(text::join, 4);
    let a = parts[1];
    let b = parts[3];
    assert(!parts[1].contains('/') && !parts[2].contains('/') && !parts[3].contains('/'));
    assert(text::join(parts, '/') =~= scheme + seq!['/'] + (a + seq!['/'] + (port + seq!['/'] + b)));
    (a, b)
}

} // verus!
