//! How the watcher reacts to the messages of its hidden window.
//!
//! A message is worked off in up to three steps: [`on_message`] decides whether the header of
//! the notification is worth reading, [`on_header`] whether a new snapshot of the ports is
//! needed, and [`WatcherState::on_snapshot`] reports what has changed. The caller forwards every
//! message to the default window procedure in the end, whichever of the steps it took.
use tokio::sync::mpsc;
use vstd::prelude::*;

use crate::channel;
use crate::channel::Delivery;
use crate::channel::EventSender;
use crate::event;
use crate::event::ComPortEvent;
use crate::event::DeviceChange;
use crate::event::PortEvent;
use crate::ports::PortSet;

verus! {

/// The message that tells a window of a change to the hardware.
pub const WM_DEVICECHANGE: u32 = 0x0219;

/// A device or piece of media has been inserted and is now available.
pub const DBT_DEVICEARRIVAL: u32 = 0x8000;

/// A device or piece of media has been removed.
pub const DBT_DEVICEREMOVECOMPLETE: u32 = 0x8004;

/// The type of a notification about a class of devices.
pub const DBT_DEVTYP_DEVICEINTERFACE: u32 = 5;

/// A message as the window procedure gets it.
#[derive(Debug, Clone, Copy)]
pub struct WindowMessage {
    /// Whether the window has a watcher state attached to it. It has none until the state is
    /// attached after the window was created, and none during teardown.
    pub attached: bool,
    /// The kind of message.
    pub msg: u32,
    /// The first parameter; of a device change, its low half is the kind of change.
    pub wparam: usize,
    /// The second parameter; of a device change, the address of a header, or zero for some
    /// kinds of change.
    pub lparam: isize,
}

/// What the window procedure does next.
#[derive(Debug, Clone, Copy, PartialEq, Eq, Structural)]
pub enum MessageStep {
    /// Read the device type from the header of the notification.
    ReadHeader(DeviceChange),
    /// Take a snapshot of the ports.
    TakeSnapshot(DeviceChange),
    /// Nothing more: only forward the message to the default window procedure.
    Forward,
}

/// The device change that a message announces, if it announces one that the watcher follows.
pub open spec fn change_in(message: WindowMessage) -> Option<DeviceChange> {
    let kind = message.wparam as int % 0x1_0000_0000;
    if message.msg != WM_DEVICECHANGE || !message.attached || message.lparam == 0 {
        None
    } else if kind == DBT_DEVICEARRIVAL {
        Some(DeviceChange::Arrival)
    } else if kind == DBT_DEVICEREMOVECOMPLETE {
        Some(DeviceChange::Removal)
    } else {
        None
    }
}

/// The first step for a message.
pub open spec fn message_step(message: WindowMessage) -> MessageStep {
    match change_in(message) {
        Some(change) => MessageStep::ReadHeader(change),
        None => MessageStep::Forward,
    }
}

/// The step that follows once the device type of a notification is known.
pub open spec fn header_step(change: DeviceChange, device_type: u32) -> MessageStep {
    if device_type == DBT_DEVTYP_DEVICEINTERFACE {
        MessageStep::TakeSnapshot(change)
    } else {
        MessageStep::Forward
    }
}

/// Decides what to do with a message.
pub fn on_message(message: WindowMessage) -> (step: MessageStep)
    ensures
        step == message_step(message),
{
    if message.msg == WM_DEVICECHANGE && message.attached && message.lparam != 0 {
        let wide: u64 = message.wparam as u64;
        let kind: u32 = #[verifier::truncate] (wide as u32);
        assert(wide as u32 == wide % 0x1_0000_0000) by (bit_vector);
        if kind == DBT_DEVICEARRIVAL {
            return MessageStep::ReadHeader(DeviceChange::Arrival);
        }
        if kind == DBT_DEVICEREMOVECOMPLETE {
            return MessageStep::ReadHeader(DeviceChange::Removal);
        }
    }
    MessageStep::Forward
}

/// Decides what to do once the device type of a notification is known.
pub fn on_header(change: DeviceChange, device_type: u32) -> (step: MessageStep)
    ensures
        step == header_step(change, device_type),
{
    if device_type == DBT_DEVTYP_DEVICEINTERFACE {
        MessageStep::TakeSnapshot(change)
    } else {
        MessageStep::Forward
    }
}

/// State owned by the watcher thread.
pub struct WatcherState {
    tx: EventSender,
    known_ports: PortSet,
}

impl WatcherState {
    /// The names of the ports visible at the last event.
    pub closed spec fn known(&self) -> Seq<Seq<char>> {
        self.known_ports@
    }

    /// The events that the consumer's channel has taken.
    pub closed spec fn reported(&self) -> Seq<PortEvent> {
        channel::accepted(self.tx)
    }

    /// The events that were offered to the consumer's channel, taken or not.
    pub closed spec fn offered(&self) -> Seq<PortEvent> {
        channel::offered(self.tx)
    }

    /// Whether the events come out at `rx`.
    pub closed spec fn feeds(&self, rx: mpsc::Receiver<ComPortEvent>) -> bool {
        channel::connected(self.tx, rx)
    }

    /// Whether the consumer has been found gone: an event has come back for that reason, or the
    /// answer to the question whether it is gone was yes.
    pub closed spec fn found_consumer_gone(&self) -> bool {
        channel::found_closed(self.tx)
    }

    /// The answers given to the question whether the consumer is gone, oldest first.
    pub closed spec fn consumer_checks(&self) -> Seq<bool> {
        channel::closed_answers(self.tx)
    }

    /// The backlog depth of the consumer's channel.
    pub closed spec fn backlog(&self) -> nat {
        channel::backlog(self.tx)
    }

    /// Starts from the ports that are present now.
    pub fn new(tx: EventSender, known_ports: PortSet) -> (state: WatcherState)
        ensures
            state.known() == known_ports@,
            state.offered() == channel::offered(tx),
            state.reported() == channel::accepted(tx),
            state.found_consumer_gone() == channel::found_closed(tx),
            state.consumer_checks() == channel::closed_answers(tx),
            state.backlog() == channel::backlog(tx),
            forall|rx: mpsc::Receiver<ComPortEvent>| #[trigger]
                state.feeds(rx) == channel::connected(tx, rx),
    {
        WatcherState { tx, known_ports }
    }

    /// The ports visible at the last event.
    pub fn known_ports(&self) -> (ports: &PortSet)
        ensures
            ports@ == self.known(),
    {
        &self.known_ports
    }

    /// Asks the channel whether the consumer has gone away. It never comes back, so once it has
    /// been found gone the answer is yes; otherwise the answer depends on the consumer alone.
    pub(crate) fn consumer_gone(&mut self) -> (gone: bool)
        ensures
            final(self).consumer_checks() == old(self).consumer_checks().push(gone),
            final(self).found_consumer_gone() == (old(self).found_consumer_gone() || gone),
            old(self).found_consumer_gone() ==> gone,
            final(self).known() == old(self).known(),
            final(self).offered() == old(self).offered(),
            final(self).reported() == old(self).reported(),
            final(self).backlog() == old(self).backlog(),
            forall|rx: mpsc::Receiver<ComPortEvent>| #[trigger]
                final(self).feeds(rx) == old(self).feeds(rx),
    {
        channel::is_closed(&mut self.tx)
    }

    /// Reports what has changed between the ports known so far and those of a new snapshot,
    /// which become the known ones. An event that the channel does not take is dropped; what
    /// became of each event is returned.
    pub fn on_snapshot(&mut self, change: DeviceChange, current: PortSet) -> (outcomes: Vec<
        Delivery,
    >)
        ensures
            final(self).known() == current@,
            final(self).offered() == old(self).offered() + event::changes(
                change,
                old(self).known(),
                current@,
            ),
            channel::are_outcomes_of(
                outcomes@,
                event::changes(change, old(self).known(), current@),
            ),
            final(self).reported() == old(self).reported() + channel::delivered(
                event::changes(change, old(self).known(), current@),
                outcomes@,
            ),
            final(self).found_consumer_gone() == (old(self).found_consumer_gone()
                || channel::hit_closed(outcomes@)),
            channel::stays_closed(old(self).found_consumer_gone(), outcomes@),
            channel::full_only_if_full(
                old(self).reported().len(),
                old(self).backlog(),
                event::changes(change, old(self).known(), current@),
                outcomes@,
            ),
            final(self).consumer_checks() == old(self).consumer_checks(),
            final(self).backlog() == old(self).backlog(),
            forall|rx: mpsc::Receiver<ComPortEvent>| #[trigger]
                final(self).feeds(rx) == old(self).feeds(rx),
    {
        let events: Vec<ComPortEvent> = event::port_changes(change, &self.known_ports, &current);
        let outcomes: Vec<Delivery> = channel::deliver(&mut self.tx, events);
        self.known_ports = current;
        outcomes
    }
}

/// The known ports after a message, and the events offered to the consumer for it. The device
/// type and the snapshot count only where the steps ask for them.
pub open spec fn reaction(
    known: Seq<Seq<char>>,
    message: WindowMessage,
    device_type: u32,
    current: Seq<Seq<char>>,
) -> (Seq<Seq<char>>, Seq<PortEvent>) {
    match message_step(message) {
        MessageStep::ReadHeader(announced) => match header_step(announced, device_type) {
            MessageStep::TakeSnapshot(change) => (current, event::changes(change, known, current)),
            _ => (known, Seq::empty()),
        },
        _ => (known, Seq::empty()),
    }
}

/// Any message but a device change that concerns an interface leaves the watcher as it is, and
/// so does every message to a window without a state: nothing is reported and the known ports
/// stay.
pub proof fn other_messages_change_nothing(
    known: Seq<Seq<char>>,
    message: WindowMessage,
    device_type: u32,
    current: Seq<Seq<char>>,
)
    requires
        message.msg != WM_DEVICECHANGE || !message.attached || message.lparam == 0 || device_type
            != DBT_DEVTYP_DEVICEINTERFACE || {
            let kind = message.wparam as int % 0x1_0000_0000;
            kind != DBT_DEVICEARRIVAL && kind != DBT_DEVICEREMOVECOMPLETE
        },
    ensures
        reaction(known, message, device_type, current) == (known, Seq::<PortEvent>::empty()),
{
}

/// A port is reported once per change: after a reaction to a snapshot, further notifications of
/// either kind report nothing as long as the ports stay the same.
pub proof fn repeated_notifications_report_nothing(
    known: Seq<Seq<char>>,
    first: WindowMessage,
    second: WindowMessage,
    device_type: u32,
    current: Seq<Seq<char>>,
    again: Seq<Seq<char>>,
)
    requires
        first.attached && first.msg == 0x0219 && first.lparam != 0,
        first.wparam as int % 0x1_0000_0000 == 0x8000 || first.wparam as int % 0x1_0000_0000
            == 0x8004,
        device_type == 5,
        forall|name: Seq<char>| current.contains(name) <==> again.contains(name),
    ensures
        reaction(
            reaction(known, first, device_type, current).0,
            second,
            device_type,
            again,
        ).1.len() == 0,
{
    match change_in(second) {
        Some(change) => {
            event::same_ports_report_nothing(change, current, again);
        },
        None => {},
    }
}

/// A sequence without duplicates that holds one element and no other is that element alone.
proof fn single_element(events: Seq<PortEvent>, only: PortEvent)
    requires
        events.no_duplicates(),
        forall|event: PortEvent| #[trigger] events.contains(event) <==> event == only,
    ensures
        events == seq![only],
{
    assert(events.contains(only));
    assert forall|i: int| 0 <= i < events.len() implies events[i] == only by {
        assert(events.contains(events[i]));
    }
    if events.len() > 1 {
        assert(events[0] == events[1]);
    }
    assert(events =~= seq![only]);
}

/// Plugging in a port reports it as attached, and nothing else; unplugging it again reports it
/// as detached, and nothing else. The order in which a snapshot lists the ports does not matter.
pub proof fn plug_and_unplug(
    known: Seq<Seq<char>>,
    grown: Seq<Seq<char>>,
    back: Seq<Seq<char>>,
    port: Seq<char>,
    plug: WindowMessage,
    unplug: WindowMessage,
    device_type: u32,
)
    requires
        !known.contains(port),
        grown.no_duplicates(),
        forall|name: Seq<char>| #[trigger]
            grown.contains(name) <==> known.contains(name) || name == port,
        forall|name: Seq<char>| #[trigger] back.contains(name) <==> known.contains(name),
        plug.attached && plug.msg == 0x0219 && plug.lparam != 0,
        plug.wparam as int % 0x1_0000_0000 == 0x8000,
        unplug.attached && unplug.msg == 0x0219 && unplug.lparam != 0,
        unplug.wparam as int % 0x1_0000_0000 == 0x8004,
        device_type == 5,
    ensures
        reaction(known, plug, device_type, grown) == (grown, seq![PortEvent::Attached(port)]),
        reaction(grown, unplug, device_type, back) == (back, seq![PortEvent::Detached(port)]),
{
    event::arrival_reports_new_ports(known, grown);
    event::removal_reports_vanished_ports(grown, back);
    single_element(
        event::changes(DeviceChange::Arrival, known, grown),
        PortEvent::Attached(port),
    );
    single_element(
        event::changes(DeviceChange::Removal, grown, back),
        PortEvent::Detached(port),
    );
}

/// Every arrival and every removal is followed, on the fields of the message alone: a
/// `WM_DEVICECHANGE` to a window with a state, with a header and with the code of an arrival or of
/// a removal in the low half of its first parameter, leads to reading the header for that change.
/// Any other message is only forwarded.
pub proof fn device_changes_are_followed(message: WindowMessage)
    ensures
        ({
            let kind = message.wparam as int % 0x1_0000_0000;
            let heard = message.attached && message.msg == 0x0219 && message.lparam != 0;
            &&& heard && kind == 0x8000 ==> message_step(message) == MessageStep::ReadHeader(
                DeviceChange::Arrival,
            )
            &&& heard && kind == 0x8004 ==> message_step(message) == MessageStep::ReadHeader(
                DeviceChange::Removal,
            )
            &&& !heard || (kind != 0x8000 && kind != 0x8004) ==> message_step(message)
                == MessageStep::Forward
        }),
{
}

/// A change that concerns a device interface leads to a snapshot for that very change, and one
/// that concerns anything else to none.
pub proof fn interfaces_lead_to_a_snapshot(change: DeviceChange, device_type: u32)
    ensures
        device_type == 5 ==> header_step(change, device_type) == MessageStep::TakeSnapshot(change),
        device_type != 5 ==> header_step(change, device_type) == MessageStep::Forward,
{
}

/// An arrival makes the snapshot the known ports and reports, as attached and each once, exactly
/// the ports that it holds and that were not known.
pub proof fn arrivals_are_reported(
    known: Seq<Seq<char>>,
    message: WindowMessage,
    current: Seq<Seq<char>>,
    event: PortEvent,
)
    requires
        message.attached && message.msg == 0x0219 && message.lparam != 0,
        message.wparam as int % 0x1_0000_0000 == 0x8000,
        current.no_duplicates(),
    ensures
        reaction(known, message, 5, current).0 == current,
        reaction(known, message, 5, current).1.no_duplicates(),
        reaction(known, message, 5, current).1.contains(event) <==> (
        event matches PortEvent::Attached(name) && current.contains(name) && !known.contains(
            name,
        )),
{
    event::arrival_reports_new_ports(known, current);
}

/// A removal makes the snapshot the known ports and reports, as detached and each once, exactly
/// the ports that were known and that it does not hold.
pub proof fn removals_are_reported(
    known: Seq<Seq<char>>,
    message: WindowMessage,
    current: Seq<Seq<char>>,
    event: PortEvent,
)
    requires
        message.attached && message.msg == 0x0219 && message.lparam != 0,
        message.wparam as int % 0x1_0000_0000 == 0x8004,
        known.no_duplicates(),
    ensures
        reaction(known, message, 5, current).0 == current,
        reaction(known, message, 5, current).1.no_duplicates(),
        reaction(known, message, 5, current).1.contains(event) <==> (
        event matches PortEvent::Detached(name) && known.contains(name) && !current.contains(
            name,
        )),
{
    event::removal_reports_vanished_ports(known, current);
}

} // verus!
