//! The Windows toast that announces an event.
use vstd::prelude::*;

use crate::activation;

verus! {

/// The text of a button that opens PuTTY on `port`.
pub open spec fn button(port: Seq<char>) -> Seq<char> {
    "\n            <actions>\n                <action\n                content=\"Open PuTTY\"\n                activationType=\"protocol\"\n                arguments=\""@
        + activation::uri_of(port) + "\" />\n              </actions>\n            "@
}

/// The document of a toast that shows `message` and, for a port, a button that opens PuTTY on
/// it. The message and the port stand in it as they are.
pub open spec fn toast_document(message: Seq<char>, port: Option<Seq<char>>) -> Seq<char> {
    let actions = match port {
        Some(name) => button(name),
        None => Seq::empty(),
    };
    "\n<toast duration=\"short\">\n<audio silent=\"true\"/>\n    <visual>\n        <binding template=\"ToastGeneric\">\n            <text>"@
        + message + "</text>\n        </binding>\n    </visual>\n"@ + actions + "\n</toast>\n"@
}

/// The identity under which toasts are shown.
pub fn notifier_id() -> (id: &'static str)
    ensures
        id@ == "dev.0xa54.com-notifier"@,
{
    "dev.0xa54.com-notifier"
}

/// Writes the document of a toast.
pub fn toast_xml(message: &str, port: Option<&str>) -> (xml: String)
    ensures
        xml@ == toast_document(
            message@,
            match port {
                Some(name) => Some(name@),
                None => None,
            },
        ),
{
    let mut actions: String = String::new();
    if let Some(name) = port {
        actions.append(
            "\n            <actions>\n                <action\n                content=\"Open PuTTY\"\n                activationType=\"protocol\"\n                arguments=\"",
        );
        let uri: String = activation::activation_uri(name);
        actions.append(uri.as_str());
        actions.append("\" />\n              </actions>\n            ");
        assert(actions@ =~= button(name@));
    }
    let mut xml: String =
        "\n<toast duration=\"short\">\n<audio silent=\"true\"/>\n    <visual>\n        <binding template=\"ToastGeneric\">\n            <text>".to_owned();
    xml.append(message);
    xml.append("</text>\n        </binding>\n    </visual>\n");
    xml.append(actions.as_str());
    xml.append("\n</toast>\n");
    xml
}

/// A toast is made of fixed texts with the message and the port between them, each as it is and
/// in one place: the message as the text that is shown, the port behind the scheme in the
/// argument of the button. A toast without a port has no button.
pub proof fn toast_shows_its_message_and_port(message: Seq<char>, port: Seq<char>)
    ensures
        toast_document(message, Some(port)) == "\n<toast duration=\"short\">\n<audio silent=\"true\"/>\n    <visual>\n        <binding template=\"ToastGeneric\">\n            <text>"@
            + message + "</text>\n        </binding>\n    </visual>\n"@
            + "\n            <actions>\n                <action\n                content=\"Open PuTTY\"\n                activationType=\"protocol\"\n                arguments=\""@
            + ("comport://"@ + port) + "\" />\n              </actions>\n            "@ + "\n</toast>\n"@,
        toast_document(message, None) == "\n<toast duration=\"short\">\n<audio silent=\"true\"/>\n    <visual>\n        <binding template=\"ToastGeneric\">\n            <text>"@
            + message + "</text>\n        </binding>\n    </visual>\n"@ + "\n</toast>\n"@,
{
    assert(toast_document(message, Some(port)) =~= "\n<toast duration=\"short\">\n<audio silent=\"true\"/>\n    <visual>\n        <binding template=\"ToastGeneric\">\n            <text>"@
        + message + "</text>\n        </binding>\n    </visual>\n"@
        + "\n            <actions>\n                <action\n                content=\"Open PuTTY\"\n                activationType=\"protocol\"\n                arguments=\""@
        + ("comport://"@ + port) + "\" />\n              </actions>\n            "@ + "\n</toast>\n"@);
    assert(toast_document(message, None) =~= "\n<toast duration=\"short\">\n<audio silent=\"true\"/>\n    <visual>\n        <binding template=\"ToastGeneric\">\n            <text>"@
        + message + "</text>\n        </binding>\n    </visual>\n"@ + "\n</toast>\n"@);
}

/// A click on a toast opens the port that the toast is for: the document holds, between
/// `arguments="` and a closing quote, the scheme, two slashes and that port, without a quote of
/// its own where the port has none, and this argument, with the `/` that closes its authority
/// part, is read as the port.
pub proof fn click_opens_the_port_of_the_toast(message: Seq<char>, port: Seq<char>) -> (span: (
    int,
    int,
))
    requires
        !port.contains('/'),
    ensures
        ({
            let document = toast_document(message, Some(port));
            let argument = document.subrange(span.0, span.1);
            let (from, to) = span;
            &&& 11 <= from <= to < document.len()
            &&& document.subrange(from - 11, from) == seq![
                'a',
                'r',
                'g',
                'u',
                'm',
                'e',
                'n',
                't',
                's',
                '=',
                '"',
            ]
            &&& document[to] == '"'
            &&& argument == seq!['c', 'o', 'm', 'p', 'o', 'r', 't', ':', '/', '/'] + port
            &&& !port.contains('"') ==> !argument.contains('"')
            &&& activation::port_in_argument(argument.push('/')) == Some(port)
        }),
{
    let opening = "\n            <actions>\n                <action\n                content=\"Open PuTTY\"\n                activationType=\"protocol\"\n                arguments=\""@;
    let closing = "\" />\n              </actions>\n            "@;
    reveal_strlit("\n            <actions>\n                <action\n                content=\"Open PuTTY\"\n                activationType=\"protocol\"\n                arguments=\"");
    reveal_strlit("\" />\n              </actions>\n            ");
    toast_shows_its_message_and_port(message, port);
    activation::uri_is_scheme_and_port(port);
    activation::activation_names_its_port(port);
    let head = "\n<toast duration=\"short\">\n<audio silent=\"true\"/>\n    <visual>\n        <binding template=\"ToastGeneric\">\n            <text>"@
        + message + "</text>\n        </binding>\n    </visual>\n"@;
    let uri = activation::uri_of(port);
    let tail = closing + "\n</toast>\n"@;
    let document = toast_document(message, Some(port));
    assert(document =~= head + opening + uri + tail);
    let from = (head.len() + opening.len()) as int;
    let to = from + uri.len();
    assert(document.subrange(from - 11, from) =~= opening.subrange(
        opening.len() - 11,
        opening.len() as int,
    ));
    assert(opening.subrange(opening.len() - 11, opening.len() as int) =~= seq![
        'a',
        'r',
        'g',
        'u',
        'm',
        'e',
        'n',
        't',
        's',
        '=',
        '"',
    ]);
    assert(document[to] == closing[0]);
    assert(document.subrange(from, to) =~= uri);
    if !port.contains('"') {
        assert forall|i: int| 0 <= i < uri.len() implies uri[i] != '"' by {
            if i >= 10 {
                assert(uri[i] == port[i - 10]);
                assert(port.contains(port[i - 10]));
            }
        }
    }
    (from, to)
}

} // verus!
