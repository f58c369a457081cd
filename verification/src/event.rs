//! The events that the watcher reports.
use vstd::prelude::*;

use crate::ports;
use crate::ports::PortSet;

verus! {

/// A COM port came or went.
#[derive(Debug, Clone, PartialEq, Eq)]
pub enum ComPortEvent {
    /// A COM port was plugged in (e.g. `"COM3"`).
    Attached(String),
    /// A COM port was removed (e.g. `"COM3"`).
    Detached(String),
}

/// What a [`ComPortEvent`] says, with the port name as a sequence of characters.
pub enum PortEvent {
    Attached(Seq<char>),
    Detached(Seq<char>),
}

impl View for ComPortEvent {
    type V = PortEvent;

    open spec fn view(&self) -> PortEvent {
        match self {
            ComPortEvent::Attached(port) => PortEvent::Attached(port@),
            ComPortEvent::Detached(port) => PortEvent::Detached(port@),
        }
    }
}

/// A kind of device notification.
#[derive(Debug, Clone, Copy, PartialEq, Eq, Structural)]
pub enum DeviceChange {
    /// A device was plugged in.
    Arrival,
    /// A device was removed.
    Removal,
}

/// The views of a list of events.
pub open spec fn views(events: Seq<ComPortEvent>) -> Seq<PortEvent> {
    events.map_values(|event: ComPortEvent| event@)
}

/// An `Attached` event for each of the ports.
pub open spec fn all_attached(names: Seq<Seq<char>>) -> Seq<PortEvent> {
    names.map_values(|name: Seq<char>| PortEvent::Attached(name))
}

/// A `Detached` event for each of the ports.
pub open spec fn all_detached(names: Seq<Seq<char>>) -> Seq<PortEvent> {
    names.map_values(|name: Seq<char>| PortEvent::Detached(name))
}

/// The events that a device notification gives rise to when the ports were `known` and are
/// `current` now: on an arrival, the newly appeared ports are reported; on a removal, those
/// that have vanished.
pub open spec fn changes(
    change: DeviceChange,
    known: Seq<Seq<char>>,
    current: Seq<Seq<char>>,
) -> Seq<PortEvent> {
    match change {
        DeviceChange::Arrival => all_attached(ports::absent_from(current, known)),
        DeviceChange::Removal => all_detached(ports::absent_from(known, current)),
    }
}

/// Finds the events that a device notification gives rise to.
pub fn port_changes(change: DeviceChange, known: &PortSet, current: &PortSet) -> (events: Vec<
    ComPortEvent,
>)
    ensures
        views(events@) == changes(change, known@, current@),
{
    let names: Vec<String> = match change {
        DeviceChange::Arrival => current.difference(known),
        DeviceChange::Removal => known.difference(current),
    };
    let mut events: Vec<ComPortEvent> = Vec::new();
    let mut i: usize = 0;
    while i < names.len()
        invariant
            i <= names.len(),
            events.len() == i,
            forall|j: int|
                0 <= j < i ==> (#[trigger] events[j])@ == (match change {
                    DeviceChange::Arrival => PortEvent::Attached(names[j]@),
                    DeviceChange::Removal => PortEvent::Detached(names[j]@),
                }),
        decreases names.len() - i,
    {
        let port: String = names[i].clone();
        events.push(
            match change {
                DeviceChange::Arrival => ComPortEvent::Attached(port),
                DeviceChange::Removal => ComPortEvent::Detached(port),
            },
        );
        i = i + 1;
    }
    assert(views(events@) =~= changes(change, known@, current@)) by {
        assert(crate::text::texts(names@).len() == names@.len());
    }
    events
}

/// An arrival reports exactly the ports that are there now and were not known, each once, all
/// as attached.
pub proof fn arrival_reports_new_ports(known: Seq<Seq<char>>, current: Seq<Seq<char>>)
    requires
        current.no_duplicates(),
    ensures
        changes(DeviceChange::Arrival, known, current).no_duplicates(),
        forall|event: PortEvent|
            #[trigger] changes(DeviceChange::Arrival, known, current).contains(event) <==> (
            event matches PortEvent::Attached(name) && current.contains(name) && !known.contains(
                name,
            )),
{
    let names = ports::absent_from(current, known);
    let events = changes(DeviceChange::Arrival, known, current);
    ports::absent_from_is_distinct(current, known);
    assert forall|event: PortEvent| #[trigger] events.contains(event) <==> (
    event matches PortEvent::Attached(name) && current.contains(name) && !known.contains(name)) by {
        match event {
            PortEvent::Attached(name) => {
                ports::absent_from_members(current, known, name);
                if events.contains(event) {
                    let i = choose|i: int| 0 <= i < events.len() && events[i] == event;
                    assert(names[i] == name);
                }
                if names.contains(name) {
                    let i = choose|i: int| 0 <= i < names.len() && names[i] == name;
                    assert(events[i] == event);
                }
            },
            PortEvent::Detached(name) => {
                if events.contains(event) {
                    let i = choose|i: int| 0 <= i < events.len() && events[i] == event;
                    assert(events[i] == PortEvent::Attached(names[i]));
                }
            },
        }
    }
    assert forall|i: int, j: int| 0 <= i < events.len() && 0 <= j < events.len() && i != j implies
        events[i] != events[j] by {
        assert(names[i] != names[j]);
    }
}

/// A removal reports exactly the ports that were known and are gone now, each once, all as
/// detached.
pub proof fn removal_reports_vanished_ports(known: Seq<Seq<char>>, current: Seq<Seq<char>>)
    requires
        known.no_duplicates(),
    ensures
        changes(DeviceChange::Removal, known, current).no_duplicates(),
        forall|event: PortEvent|
            #[trigger] changes(DeviceChange::Removal, known, current).contains(event) <==> (
            event matches PortEvent::Detached(name) && known.contains(name) && !current.contains(
                name,
            )),
{
    let names = ports::absent_from(known, current);
    let events = changes(DeviceChange::Removal, known, current);
    ports::absent_from_is_distinct(known, current);
    assert forall|event: PortEvent| #[trigger] events.contains(event) <==> (
    event matches PortEvent::Detached(name) && known.contains(name) && !current.contains(name)) by {
        match event {
            PortEvent::Detached(name) => {
                ports::absent_from_members(known, current, name);
                if events.contains(event) {
                    let i = choose|i: int| 0 <= i < events.len() && events[i] == event;
                    assert(names[i] == name);
                }
                if names.contains(name) {
                    let i = choose|i: int| 0 <= i < names.len() && names[i] == name;
                    assert(events[i] == event);
                }
            },
            PortEvent::Attached(name) => {
                if events.contains(event) {
                    let i = choose|i: int| 0 <= i < events.len() && events[i] == event;
                    assert(events[i] == PortEvent::Detached(names[i]));
                }
            },
        }
    }
    assert forall|i: int, j: int| 0 <= i < events.len() && 0 <= j < events.len() && i != j implies
        events[i] != events[j] by {
        assert(names[i] != names[j]);
    }
}

/// Where no port has come or gone, nothing is reported, whatever the notification and whatever
/// order the ports are listed in.
pub proof fn same_ports_report_nothing(
    change: DeviceChange,
    known: Seq<Seq<char>>,
    current: Seq<Seq<char>>,
)
    requires
        forall|name: Seq<char>| known.contains(name) <==> current.contains(name),
    ensures
        changes(change, known, current).len() == 0,
{
    let (names, others) = match change {
        DeviceChange::Arrival => (current, known),
        DeviceChange::Removal => (known, current),
    };
    let kept = ports::absent_from(names, others);
    if kept.len() > 0 {
        ports::absent_from_members(names, others, kept[0]);
        assert(kept.contains(kept[0]));
    }
}

/// What the console and the desktop show of an event.
#[derive(Debug, Clone, PartialEq, Eq)]
pub struct Announcement {
    /// The line to print.
    pub line: String,
    /// The message of a toast, where there is one to show.
    pub toast: Option<String>,
    /// The port of the event.
    pub port: String,
}

/// Decides how to announce an event: either kind gets a line, and a port that was attached
/// gets a toast too.
pub fn announce(event: &ComPortEvent) -> (announcement: Announcement)
    ensures
        match event@ {
            PortEvent::Attached(port) => {
                &&& announcement.line@ == "[+] "@ + port + " attached"@
                &&& announcement.toast matches Some(message) && message@ == port + " Attached"@
                &&& announcement.port@ == port
            },
            PortEvent::Detached(port) => {
                &&& announcement.line@ == "[-] "@ + port + " detached"@
                &&& announcement.toast is None
                &&& announcement.port@ == port
            },
        },
{
    match event {
        ComPortEvent::Attached(port) => {
            let mut line: String = "[+] ".to_owned();
            line.append(port.as_str());
            line.append(" attached");
            let mut message: String = port.clone();
            message.append(" Attached");
            Announcement { line, toast: Some(message), port: port.clone() }
        },
        ComPortEvent::Detached(port) => {
            let mut line: String = "[-] ".to_owned();
            line.append(port.as_str());
            line.append(" detached");
            Announcement { line, toast: None, port: port.clone() }
        },
    }
}

/// An event is viewed as the same kind of event for the very port that it holds.
pub proof fn event_is_viewed_as_it_is(port: String)
    ensures
        ComPortEvent::Attached(port)@ == PortEvent::Attached(port@),
        ComPortEvent::Detached(port)@ == PortEvent::Detached(port@),
{
}

/// A list of events has the view of each event, in its place.
pub proof fn views_are_those_of_the_events(events: Seq<ComPortEvent>)
    ensures
        views(events).len() == events.len(),
        forall|i: int| 0 <= i < events.len() ==> #[trigger] views(events)[i] == events[i]@,
{
}

} // verus!
