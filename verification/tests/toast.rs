use com_notifier::toast::{notifier_id, toast_xml};

#[test]
fn toast_without_port_has_no_button() {
    assert_eq!(
        toast_xml("COM Notifier is Running!", None),
        r#"
<toast duration="short">
<audio silent="true"/>
    <visual>
        <binding template="ToastGeneric">
            <text>COM Notifier is Running!</text>
        </binding>
    </visual>

</toast>
"#
    );
}

#[test]
fn toast_with_port_opens_putty() {
    assert_eq!(
        toast_xml("COM3 Attached", Some("COM3")),
        r#"
<toast duration="short">
<audio silent="true"/>
    <visual>
        <binding template="ToastGeneric">
            <text>COM3 Attached</text>
        </binding>
    </visual>

            <actions>
                <action
                content="Open PuTTY"
                activationType="protocol"
                arguments="comport://COM3" />
              </actions>
            
</toast>
"#
    );
}

#[test]
fn message_is_not_escaped() {
    assert!(toast_xml("a<b>&\"", None).contains("<text>a<b>&\"</text>"));
}

#[test]
fn toasts_have_one_sender() {
    assert_eq!(notifier_id(), "dev.0xa54.com-notifier");
}
