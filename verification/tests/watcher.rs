use com_notifier::channel::{deliver, event_channel, Delivery};
use com_notifier::event::{announce, port_changes, ComPortEvent, DeviceChange};
use com_notifier::ports::PortSet;
use com_notifier::watcher::{
    on_header, on_message, MessageStep, WatcherState, WindowMessage, DBT_DEVICEARRIVAL,
    DBT_DEVICEREMOVECOMPLETE, DBT_DEVTYP_DEVICEINTERFACE, WM_DEVICECHANGE,
};
use windows_sys::Win32::UI::WindowsAndMessaging;

fn set(names: &[&str]) -> PortSet {
    let mut set = PortSet::new();
    for name in names {
        set.insert(name.to_string());
    }
    set
}

fn attached(port: &str) -> ComPortEvent {
    ComPortEvent::Attached(port.to_string())
}

fn detached(port: &str) -> ComPortEvent {
    ComPortEvent::Detached(port.to_string())
}

fn message(wparam: usize) -> WindowMessage {
    WindowMessage { attached: true, msg: WM_DEVICECHANGE, wparam, lparam: 0x1000 }
}

#[test]
fn message_codes_are_those_of_the_system() {
    assert_eq!(WM_DEVICECHANGE, WindowsAndMessaging::WM_DEVICECHANGE);
    assert_eq!(DBT_DEVICEARRIVAL, WindowsAndMessaging::DBT_DEVICEARRIVAL);
    assert_eq!(DBT_DEVICEREMOVECOMPLETE, WindowsAndMessaging::DBT_DEVICEREMOVECOMPLETE);
    assert_eq!(DBT_DEVTYP_DEVICEINTERFACE, WindowsAndMessaging::DBT_DEVTYP_DEVICEINTERFACE);
}

#[test]
fn arrivals_and_removals_are_followed() {
    assert_eq!(on_message(message(0x8000)), MessageStep::ReadHeader(DeviceChange::Arrival));
    assert_eq!(on_message(message(0x8004)), MessageStep::ReadHeader(DeviceChange::Removal));
}

#[test]
fn only_the_low_half_of_wparam_counts() {
    let high: usize = if usize::BITS == 64 { 1 << 40 } else { 0 };
    assert_eq!(on_message(message(high + 0x8000)), MessageStep::ReadHeader(DeviceChange::Arrival));
}

#[test]
fn other_messages_are_forwarded() {
    assert_eq!(on_message(message(7)), MessageStep::Forward);
    let m = WindowMessage { attached: false, ..message(0x8000) };
    assert_eq!(on_message(m), MessageStep::Forward);
    let m = WindowMessage { lparam: 0, ..message(0x8000) };
    assert_eq!(on_message(m), MessageStep::Forward);
    let m = WindowMessage { msg: 0x0010, ..message(0x8000) };
    assert_eq!(on_message(m), MessageStep::Forward);
}

#[test]
fn only_interfaces_need_a_snapshot() {
    let change = DeviceChange::Removal;
    assert_eq!(on_header(change, 5), MessageStep::TakeSnapshot(change));
    assert_eq!(on_header(change, 2), MessageStep::Forward);
    assert_eq!(on_header(DeviceChange::Arrival, 3), MessageStep::Forward);
}

#[test]
fn arrival_reports_only_new_ports() {
    let events = port_changes(
        DeviceChange::Arrival,
        &set(&["COM1", "COM2"]),
        &set(&["COM2", "COM3", "COM4"]),
    );
    assert_eq!(events, vec![attached("COM3"), attached("COM4")]);
}

#[test]
fn removal_reports_only_vanished_ports() {
    let events = port_changes(
        DeviceChange::Removal,
        &set(&["COM1", "COM2"]),
        &set(&["COM2", "COM3"]),
    );
    assert_eq!(events, vec![detached("COM1")]);
}

#[test]
fn same_ports_in_another_order_report_nothing() {
    let a = set(&["COM1", "COM2"]);
    let b = set(&["COM2", "COM1"]);
    assert!(port_changes(DeviceChange::Arrival, &a, &b).is_empty());
    assert!(port_changes(DeviceChange::Removal, &a, &b).is_empty());
}

#[test]
fn plug_and_unplug_reach_the_consumer() {
    let (tx, mut rx) = event_channel(64);
    let mut state = WatcherState::new(tx, set(&["COM1"]));
    let outcomes = state.on_snapshot(DeviceChange::Arrival, set(&["COM1", "COM3"]));
    assert_eq!(outcomes, vec![Delivery::Sent]);
    assert_eq!(rx.try_recv().unwrap(), attached("COM3"));
    assert!(state.on_snapshot(DeviceChange::Arrival, set(&["COM1", "COM3"])).is_empty());
    state.on_snapshot(DeviceChange::Removal, set(&["COM1"]));
    assert_eq!(rx.try_recv().unwrap(), detached("COM3"));
    assert!(rx.try_recv().is_err());
    assert_eq!(state.known_ports().names().len(), 1);
}

#[test]
fn arrival_replaces_the_known_ports() {
    let (tx, mut rx) = event_channel(8);
    let mut state = WatcherState::new(tx, set(&["COM1", "COM2"]));
    state.on_snapshot(DeviceChange::Arrival, set(&["COM2", "COM3"]));
    assert_eq!(rx.try_recv().unwrap(), attached("COM3"));
    assert!(state.on_snapshot(DeviceChange::Removal, set(&["COM2", "COM3"])).is_empty());
    assert!(rx.try_recv().is_err());
}

#[test]
fn channel_has_the_backlog_asked_for() {
    let (_tx, rx) = event_channel(3);
    assert_eq!(rx.max_capacity(), 3);
    assert_eq!(rx.len(), 0);
}

#[test]
fn full_channel_discards_events() {
    let (tx, mut rx) = event_channel(2);
    let mut state = WatcherState::new(tx, set(&[]));
    let outcomes = state.on_snapshot(DeviceChange::Arrival, set(&["A", "B", "C"]));
    assert_eq!(outcomes, vec![Delivery::Sent, Delivery::Sent, Delivery::Full(attached("C"))]);
    assert_eq!(rx.try_recv().unwrap(), attached("A"));
    assert_eq!(rx.try_recv().unwrap(), attached("B"));
    assert!(rx.try_recv().is_err());
    assert_eq!(state.known_ports().names().len(), 3);
}

#[test]
fn backlog_takes_as_many_events_as_fit() {
    let (mut tx, mut rx) = event_channel(3);
    assert_eq!(deliver(&mut tx, vec![attached("A")]), vec![Delivery::Sent]);
    let outcomes = deliver(&mut tx, vec![attached("B"), attached("C")]);
    assert_eq!(outcomes, vec![Delivery::Sent, Delivery::Sent]);
    let outcomes = deliver(&mut tx, vec![attached("D")]);
    assert_eq!(outcomes, vec![Delivery::Full(attached("D"))]);
    assert_eq!(rx.try_recv().unwrap(), attached("A"));
    assert_eq!(deliver(&mut tx, vec![attached("E")]), vec![Delivery::Sent]);
}

#[test]
fn dropped_receiver_discards_events() {
    let (tx, rx) = event_channel(2);
    let mut state = WatcherState::new(tx, set(&["A"]));
    drop(rx);
    let outcomes = state.on_snapshot(DeviceChange::Removal, set(&[]));
    assert_eq!(outcomes, vec![Delivery::Closed(detached("A"))]);
    assert!(state.known_ports().names().is_empty());
}

#[test]
fn delivery_keeps_the_order() {
    let (mut tx, mut rx) = event_channel(4);
    let outcomes = deliver(&mut tx, vec![attached("A"), detached("B"), attached("C")]);
    assert_eq!(outcomes, vec![Delivery::Sent, Delivery::Sent, Delivery::Sent]);
    assert_eq!(rx.try_recv().unwrap(), attached("A"));
    assert_eq!(rx.try_recv().unwrap(), detached("B"));
    assert_eq!(rx.try_recv().unwrap(), attached("C"));
    assert!(deliver(&mut tx, Vec::new()).is_empty());
}

#[test]
fn attached_port_gets_a_line_and_a_toast() {
    let announcement = announce(&attached("COM3"));
    assert_eq!(announcement.line, "[+] COM3 attached");
    assert_eq!(announcement.toast, Some("COM3 Attached".to_string()));
    assert_eq!(announcement.port, "COM3");
}

#[test]
fn detached_port_gets_a_line_only() {
    let announcement = announce(&detached("COM3"));
    assert_eq!(announcement.line, "[-] COM3 detached");
    assert_eq!(announcement.toast, None);
}
