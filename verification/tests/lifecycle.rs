use com_notifier::channel::{event_channel, Delivery};
use com_notifier::event::{ComPortEvent, DeviceChange};
use com_notifier::lifecycle::{
    advance, check_consumer, comport_interface, WatcherError, WatcherReply, WatcherStep,
};
use com_notifier::ports::PortSet;
use com_notifier::watcher::WatcherState;

const PUMPING: WatcherStep = WatcherStep::GetMessage { window: 11, notification: 22 };
const CLEANUP: WatcherStep = WatcherStep::UnregisterNotification { window: 11, notification: 22 };

#[test]
fn setup_comes_in_order() {
    let step = advance(WatcherStep::RegisterClass, WatcherReply::Done);
    assert_eq!(step, WatcherStep::CreateWindow);
    let step = advance(step, WatcherReply::Window { window: 11, last_error: 1410 });
    assert_eq!(step, WatcherStep::AttachState { window: 11 });
    let step = advance(step, WatcherReply::Done);
    assert_eq!(step, WatcherStep::RegisterNotification { window: 11 });
    let step = advance(step, WatcherReply::Notification { notification: 22, last_error: 0 });
    assert_eq!(step, PUMPING);
}

#[test]
fn window_that_cannot_be_created_is_an_error() {
    let reply = WatcherReply::Window { window: 0, last_error: 1407 };
    let step = advance(WatcherStep::CreateWindow, reply);
    assert_eq!(step, WatcherStep::Failed(WatcherError::CreateWindow(1407)));
    assert_eq!(
        WatcherError::CreateWindow(1407).message(),
        "CreateWindowExW failed (error 1407)"
    );
}

#[test]
fn notification_that_cannot_be_registered_is_an_error() {
    let reply = WatcherReply::Notification { notification: 0, last_error: 13 };
    let step = advance(WatcherStep::RegisterNotification { window: 11 }, reply);
    assert_eq!(step, WatcherStep::Failed(WatcherError::RegisterNotification(13)));
    assert_eq!(
        WatcherError::RegisterNotification(13).message(),
        "RegisterDeviceNotificationW failed (error 13)"
    );
}

#[test]
fn quit_and_errors_end_the_pump() {
    assert_eq!(advance(PUMPING, WatcherReply::Message { status: 0 }), CLEANUP);
    assert_eq!(advance(PUMPING, WatcherReply::Message { status: -1 }), CLEANUP);
}

#[test]
fn messages_are_dispatched() {
    for status in [1, 2, -2, i32::MAX, i32::MIN] {
        let step = advance(PUMPING, WatcherReply::Message { status });
        assert_eq!(step, WatcherStep::DispatchMessage { window: 11, notification: 22 });
        let step = advance(step, WatcherReply::Done);
        assert_eq!(step, WatcherStep::CheckConsumer { window: 11, notification: 22 });
        assert_eq!(advance(step, WatcherReply::Consumer { gone: false }), PUMPING);
        assert_eq!(advance(step, WatcherReply::Consumer { gone: true }), CLEANUP);
    }
}

#[test]
fn consumer_decides_whether_to_go_on() {
    let step = WatcherStep::CheckConsumer { window: 11, notification: 22 };
    let (tx, rx) = event_channel(1);
    let mut state = WatcherState::new(tx, PortSet::new());
    assert_eq!(check_consumer(step, &mut state), PUMPING);
    drop(rx);
    assert_eq!(check_consumer(step, &mut state), CLEANUP);
}

#[test]
fn cleanup_comes_in_order() {
    let step = advance(CLEANUP, WatcherReply::Done);
    assert_eq!(step, WatcherStep::DetachState { window: 11 });
    let step = advance(step, WatcherReply::Done);
    assert_eq!(step, WatcherStep::DropState);
    assert_eq!(advance(step, WatcherReply::Done), WatcherStep::Finished);
}

#[test]
fn com_ports_are_watched() {
    let g = comport_interface();
    let d = g.data4;
    assert_eq!(
        format!(
            "{{{:08X}-{:04X}-{:04X}-{:02X}{:02X}-{:02X}{:02X}{:02X}{:02X}{:02X}{:02X}}}",
            g.data1, g.data2, g.data3, d[0], d[1], d[2], d[3], d[4], d[5], d[6], d[7]
        ),
        "{86E0D1E0-8089-11D0-9CE4-08003E301F73}"
    );
}

#[test]
fn refused_event_ends_the_pump() {
    let step = WatcherStep::CheckConsumer { window: 11, notification: 22 };
    let (tx, rx) = event_channel(1);
    let mut state = WatcherState::new(tx, PortSet::new());
    let mut ports = PortSet::new();
    ports.insert("COM3".to_string());
    ports.insert("COM4".to_string());
    drop(rx);
    let outcomes = state.on_snapshot(DeviceChange::Arrival, ports);
    let refused = |port: &str| Delivery::Closed(ComPortEvent::Attached(port.to_string()));
    assert_eq!(outcomes, vec![refused("COM3"), refused("COM4")]);
    assert_eq!(check_consumer(step, &mut state), CLEANUP);
    let outcomes = state.on_snapshot(DeviceChange::Removal, PortSet::new());
    assert!(outcomes.iter().all(|o| matches!(o, Delivery::Closed(_))));
    assert_eq!(check_consumer(step, &mut state), CLEANUP);
}
