//! The bounded channel that carries events from the watcher to its consumer.
use tokio::sync::mpsc;
use vstd::prelude::*;

use crate::event;
use crate::event::ComPortEvent;
use crate::event::PortEvent;

verus! {

/// The receiving half of a bounded channel, `tokio::sync::mpsc::Receiver`.
#[verifier::external_type_specification]
#[verifier::external_body]
#[verifier::reject_recursive_types(T)]
pub struct ExReceiver<T>(mpsc::Receiver<T>);

/// The only handle to send through to a bounded channel, a `tokio::sync::mpsc::Sender` that is
/// never handed out nor duplicated. Only events that it is offered take up places in the
/// channel's backlog.
#[verifier::external_body]
pub struct EventSender {
    tx: mpsc::Sender<ComPortEvent>,
}

/// The events that the channel has taken in through this handle, oldest first. What the
/// receiver has already taken out still counts.
pub uninterp spec fn accepted(tx: EventSender) -> Seq<PortEvent>;

/// The events that were offered to the channel through this handle, taken or not, oldest first.
pub uninterp spec fn offered(tx: EventSender) -> Seq<PortEvent>;

/// The number of events that the channel can buffer, fixed when the channel is made.
pub uninterp spec fn backlog(tx: EventSender) -> nat;

/// Whether what the channel takes in through `tx` comes out at `rx`.
pub uninterp spec fn connected(tx: EventSender, rx: mpsc::Receiver<ComPortEvent>) -> bool;

/// Whether the channel has been found closed through this handle: an event has come back for
/// that reason, or the answer to the question whether it is closed was yes.
pub uninterp spec fn found_closed(tx: EventSender) -> bool;

/// The answers that were given through this handle to the question whether the channel is
/// closed, oldest first.
pub uninterp spec fn closed_answers(tx: EventSender) -> Seq<bool>;

/// Whether two states of a handle agree on the channel behind it: its backlog and where events
/// come out.
pub open spec fn same_channel(now: EventSender, before: EventSender) -> bool {
    &&& backlog(now) == backlog(before)
    &&& forall|rx: mpsc::Receiver<ComPortEvent>| #[trigger]
        connected(now, rx) == connected(before, rx)
}

/// What became of one event that was offered to the channel.
#[derive(Debug, Clone, PartialEq, Eq)]
pub enum Delivery {
    /// The channel took the event.
    Sent,
    /// The backlog was full; the event comes back.
    Full(ComPortEvent),
    /// The receiver is gone; the event comes back.
    Closed(ComPortEvent),
}

/// `tokio::sync::mpsc::channel` makes the two ends of one channel, which buffers up to `capacity`
/// events and holds none yet. It panics on a capacity of zero and on one above
/// `Semaphore::MAX_PERMITS`, which is an eighth of the range of `usize`.
#[verifier::external_body]
fn channel(capacity: usize) -> (ends: (EventSender, mpsc::Receiver<ComPortEvent>))
    requires
        0 < capacity <= usize::MAX / 8,
    ensures
        connected(ends.0, ends.1),
        backlog(ends.0) == capacity,
        offered(ends.0) == Seq::<PortEvent>::empty(),
        accepted(ends.0) == Seq::<PortEvent>::empty(),
        !found_closed(ends.0),
        closed_answers(ends.0) == Seq::<bool>::empty(),
{
    let (tx, rx) = mpsc::channel(capacity);
    (EventSender { tx }, rx)
}

/// `tokio::sync::mpsc::Sender::try_send` offers an event without waiting. Either the channel
/// takes it, behind all that it took before, or the event comes back unchanged and the channel
/// has taken nothing. Which of these happens depends on what the receiver has done by then and is
/// left open here, but for two things. A closed channel is never opened again, so once it has been
/// found closed every event comes back for that reason. And the backlog, whose places only this
/// handle can take up, is full only if the channel has taken as many events as fit into it.
#[verifier::external_body]
fn try_send(tx: &mut EventSender, event: ComPortEvent) -> (outcome: Delivery)
    ensures
        same_channel(*final(tx), *old(tx)),
        closed_answers(*final(tx)) == closed_answers(*old(tx)),
        offered(*final(tx)) == offered(*old(tx)).push(event@),
        outcome is Sent ==> accepted(*final(tx)) == accepted(*old(tx)).push(event@),
        !(outcome is Sent) ==> accepted(*final(tx)) == accepted(*old(tx)),
        outcome matches Delivery::Full(back) ==> back == event,
        outcome matches Delivery::Closed(back) ==> back == event,
        found_closed(*final(tx)) == (found_closed(*old(tx)) || outcome is Closed),
        found_closed(*old(tx)) ==> outcome is Closed,
        outcome is Full ==> accepted(*old(tx)).len() >= backlog(*old(tx)),
{
    match tx.tx.try_send(event) {
        Ok(()) => Delivery::Sent,
        Err(mpsc::error::TrySendError::Full(back)) => Delivery::Full(back),
        Err(mpsc::error::TrySendError::Closed(back)) => Delivery::Closed(back),
    }
}

/// `tokio::sync::mpsc::Sender::is_closed` tells whether the receiver has been dropped or closed
/// its half. It changes nothing but the list of answers given. A closed channel is never opened
/// again, so the answer is yes once the channel has been found closed. Otherwise it depends on
/// what the receiver has done by then and is left open here.
#[verifier::external_body]
pub(crate) fn is_closed(tx: &mut EventSender) -> (closed: bool)
    ensures
        same_channel(*final(tx), *old(tx)),
        closed_answers(*final(tx)) == closed_answers(*old(tx)).push(closed),
        offered(*final(tx)) == offered(*old(tx)),
        accepted(*final(tx)) == accepted(*old(tx)),
        found_closed(*final(tx)) == (found_closed(*old(tx)) || closed),
        found_closed(*old(tx)) ==> closed,
{
    tx.tx.is_closed()
}

/// Makes the channel for the events of a watcher; `capacity` is its backlog depth.
pub fn event_channel(capacity: usize) -> (ends: (EventSender, mpsc::Receiver<ComPortEvent>))
    requires
        0 < capacity <= usize::MAX / 8,
    ensures
        connected(ends.0, ends.1),
        backlog(ends.0) == capacity,
        offered(ends.0) == Seq::<PortEvent>::empty(),
        accepted(ends.0) == Seq::<PortEvent>::empty(),
        !found_closed(ends.0),
        closed_answers(ends.0) == Seq::<bool>::empty(),
{
    channel(capacity)
}

/// The events whose delivery succeeded, in order.
pub open spec fn delivered(events: Seq<PortEvent>, outcomes: Seq<Delivery>) -> Seq<PortEvent>
    decreases events.len(),
{
    if events.len() == 0 {
        Seq::empty()
    } else {
        let before = delivered(events.drop_last(), outcomes.drop_last());
        if outcomes.last() is Sent {
            before.push(events.last())
        } else {
            before
        }
    }
}

/// Whether an outcome fits an event: an event that comes back is the one that was offered.
pub open spec fn is_outcome_of(outcome: Delivery, event: PortEvent) -> bool {
    match outcome {
        Delivery::Sent => true,
        Delivery::Full(back) => back@ == event,
        Delivery::Closed(back) => back@ == event,
    }
}

/// Whether these are outcomes of offering these events, one for each and in their order.
pub open spec fn are_outcomes_of(outcomes: Seq<Delivery>, events: Seq<PortEvent>) -> bool {
    &&& outcomes.len() == events.len()
    &&& forall|i: int| 0 <= i < events.len() ==> is_outcome_of(#[trigger] outcomes[i], events[i])
}

/// Whether one of the events came back because the channel was closed.
pub open spec fn hit_closed(outcomes: Seq<Delivery>) -> bool {
    exists|i: int| 0 <= i < outcomes.len() && (#[trigger] outcomes[i]) is Closed
}

/// Whether the channel stays closed: behind an event that came back because it was closed, all
/// events come back for that reason, and from the start if it was closed before.
pub open spec fn stays_closed(closed_before: bool, outcomes: Seq<Delivery>) -> bool {
    &&& closed_before ==> forall|i: int|
        0 <= i < outcomes.len() ==> (#[trigger] outcomes[i]) is Closed
    &&& forall|i: int, j: int|
        #![trigger outcomes[i], outcomes[j]]
        0 <= i < j < outcomes.len() && outcomes[i] is Closed ==> outcomes[j] is Closed
}

/// Whether events came back because the backlog was full only where it was: the channel, which
/// had taken `taken` events before, had by then taken as many as fit into `backlog`.
pub open spec fn full_only_if_full(
    taken: nat,
    backlog: nat,
    events: Seq<PortEvent>,
    outcomes: Seq<Delivery>,
) -> bool {
    forall|i: int|
        0 <= i < outcomes.len() && (#[trigger] outcomes[i]) is Full ==> taken + delivered(
            events.take(i),
            outcomes.take(i),
        ).len() >= backlog
}

/// Offers each event to the channel once, in order, without waiting. An event that the channel
/// does not take is not offered again.
pub fn deliver(tx: &mut EventSender, events: Vec<ComPortEvent>) -> (outcomes: Vec<
    Delivery,
>)
    ensures
        offered(*final(tx)) == offered(*old(tx)) + event::views(events@),
        are_outcomes_of(outcomes@, event::views(events@)),
        accepted(*final(tx)) == accepted(*old(tx)) + delivered(
            event::views(events@),
            outcomes@,
        ),
        found_closed(*final(tx)) == (found_closed(*old(tx)) || hit_closed(outcomes@)),
        stays_closed(found_closed(*old(tx)), outcomes@),
        full_only_if_full(
            accepted(*old(tx)).len(),
            backlog(*old(tx)),
            event::views(events@),
            outcomes@,
        ),
        closed_answers(*final(tx)) == closed_answers(*old(tx)),
        same_channel(*final(tx), *old(tx)),
{
    let mut outcomes: Vec<Delivery> = Vec::new();
    let ghost listed = event::views(events@);
    let ghost start = accepted(*tx);
    let ghost asked = offered(*tx);
    assert(asked + listed.take(0) =~= asked);
    assert(start + delivered(listed.take(0), outcomes@) =~= start);
    for event in it: events
        invariant
            it.seq() == events@,
            listed == event::views(events@),
            outcomes.len() == it.index(),
            forall|j: int|
                0 <= j < it.index() ==> is_outcome_of(#[trigger] outcomes[j], listed[j]),
            accepted(*tx) == start + delivered(listed.take(it.index()), outcomes@),
            offered(*tx) == asked + listed.take(it.index()),
            found_closed(*tx) == (found_closed(*old(tx)) || hit_closed(outcomes@)),
            stays_closed(found_closed(*old(tx)), outcomes@),
            start == accepted(*old(tx)),
            full_only_if_full(start.len(), backlog(*old(tx)), listed, outcomes@),
            closed_answers(*tx) == closed_answers(*old(tx)),
            same_channel(*tx, *old(tx)),
    {
        let ghost before = outcomes@;
        let outcome: Delivery = try_send(tx, event);
        outcomes.push(outcome);
        proof {
            let upto = listed.take(it.index() + 1);
            assert(upto.drop_last() =~= listed.take(it.index()));
            assert(upto.last() == event@);
            assert(outcomes@.drop_last() =~= before);
            assert(offered(*tx) =~= asked + upto);
            assert(outcomes@[before.len() as int] == outcome);
            assert(forall|j: int| 0 <= j < before.len() ==> outcomes@[j] == #[trigger] before[j]);
            assert(hit_closed(outcomes@) == (hit_closed(before) || outcome is Closed)) by {
                if hit_closed(before) {
                    let j = choose|j: int|
                        0 <= j < before.len() && (#[trigger] before[j]) is Closed;
                    assert(outcomes@[j] is Closed);
                }
                if outcome is Closed {
                    assert(outcomes@[before.len() as int] is Closed);
                }
            }
            assert(accepted(*tx) =~= start + delivered(upto, outcomes@));
            assert(outcomes@.take(before.len() as int) =~= before);
            assert forall|j: int| 0 <= j < before.len() implies outcomes@.take(j)
                == #[trigger] before.take(j) by {
                assert(outcomes@.take(j) =~= before.take(j));
            }
        }
    }
    assert(listed.take(listed.len() as int) =~= listed);
    outcomes
}

/// A consumer that keeps up misses nothing: where every delivery succeeded, all the events are
/// in the channel, in order.
pub proof fn all_sent_are_delivered(events: Seq<PortEvent>, outcomes: Seq<Delivery>)
    requires
        outcomes.len() == events.len(),
        forall|i: int| 0 <= i < outcomes.len() ==> (#[trigger] outcomes[i]) is Sent,
    ensures
        delivered(events, outcomes) == events,
    decreases events.len(),
{
    if events.len() > 0 {
        assert(outcomes[outcomes.len() - 1] is Sent);
        assert forall|i: int| 0 <= i < outcomes.drop_last().len() implies (
        #[trigger] outcomes.drop_last()[i]) is Sent by {
            assert(outcomes.drop_last()[i] == outcomes[i]);
        }
        all_sent_are_delivered(events.drop_last(), outcomes.drop_last());
        assert(events.drop_last().push(events.last()) =~= events);
    }
}

/// Events that no delivery succeeded for are discarded: the channel holds none of them.
pub proof fn refused_are_discarded(events: Seq<PortEvent>, outcomes: Seq<Delivery>)
    requires
        outcomes.len() == events.len(),
        forall|i: int| 0 <= i < outcomes.len() ==> !((#[trigger] outcomes[i]) is Sent),
    ensures
        delivered(events, outcomes).len() == 0,
    decreases events.len(),
{
    if events.len() > 0 {
        assert(!(outcomes[outcomes.len() - 1] is Sent));
        assert forall|i: int| 0 <= i < outcomes.drop_last().len() implies !((
        #[trigger] outcomes.drop_last()[i]) is Sent) by {
            assert(outcomes.drop_last()[i] == outcomes[i]);
        }
        refused_are_discarded(events.drop_last(), outcomes.drop_last());
    }
}

/// No more events are delivered than were offered.
proof fn delivered_is_no_longer(events: Seq<PortEvent>, outcomes: Seq<Delivery>)
    ensures
        delivered(events, outcomes).len() <= events.len(),
    decreases events.len(),
{
    if events.len() > 0 {
        delivered_is_no_longer(events.drop_last(), outcomes.drop_last());
    }
}

/// As long as the channel has taken no more events than fit into its backlog, nothing is lost
/// while the consumer is there: where there is room for all the events and none came back because
/// the channel was closed, all of them are delivered, in order.
pub proof fn backlog_takes_what_fits(
    taken: nat,
    backlog: nat,
    events: Seq<PortEvent>,
    outcomes: Seq<Delivery>,
)
    requires
        are_outcomes_of(outcomes, events),
        full_only_if_full(taken, backlog, events, outcomes),
        taken + events.len() <= backlog,
        !hit_closed(outcomes),
    ensures
        delivered(events, outcomes) == events,
{
    assert forall|i: int| 0 <= i < outcomes.len() implies (#[trigger] outcomes[i]) is Sent by {
        delivered_is_no_longer(events.take(i), outcomes.take(i));
    }
    all_sent_are_delivered(events, outcomes);
}

/// Whether an event is delivered rests on its own outcome alone: behind the events delivered
/// before it, it is there if it was sent, and else nothing is.
pub proof fn delivery_goes_by_event(
    events: Seq<PortEvent>,
    outcomes: Seq<Delivery>,
    event: PortEvent,
    outcome: Delivery,
)
    ensures
        delivered(Seq::empty(), outcomes) == Seq::<PortEvent>::empty(),
        outcome is Sent ==> delivered(events.push(event), outcomes.push(outcome)) == delivered(
            events,
            outcomes,
        ).push(event),
        !(outcome is Sent) ==> delivered(events.push(event), outcomes.push(outcome)) == delivered(
            events,
            outcomes,
        ),
{
    assert(events.push(event).drop_last() =~= events);
    assert(outcomes.push(outcome).drop_last() =~= outcomes);
}

/// There is one outcome for each event, and an event that comes back, for whichever reason, is
/// the very one that was offered in that place.
pub proof fn refused_events_come_back(
    outcomes: Seq<Delivery>,
    events: Seq<PortEvent>,
    i: int,
    back: ComPortEvent,
)
    requires
        are_outcomes_of(outcomes, events),
    ensures
        outcomes.len() == events.len(),
        0 <= i < events.len() && (outcomes[i] == Delivery::Full(back) || outcomes[i]
            == Delivery::Closed(back)) ==> back@ == events[i],
{
    if 0 <= i < events.len() {
        assert(is_outcome_of(outcomes[i], events[i]));
    }
}

/// Once the consumer is gone it does not come back: if the channel was closed before, or an
/// earlier event found it so, an event comes back because it is closed.
pub proof fn closed_is_for_good(closed_before: bool, outcomes: Seq<Delivery>, i: int, j: int)
    requires
        stays_closed(closed_before, outcomes),
        0 <= i <= j < outcomes.len(),
        closed_before || outcomes[i] is Closed,
    ensures
        outcomes[j] is Closed,
        hit_closed(outcomes),
{
    assert(outcomes[j] is Closed);
}

/// A channel has been found closed by these events exactly if one of them came back for that
/// reason.
pub proof fn closed_is_found_by_a_refusal(outcomes: Seq<Delivery>)
    ensures
        hit_closed(outcomes) <==> exists|i: int|
            0 <= i < outcomes.len() && (#[trigger] outcomes[i]) is Closed,
{
}

/// Two states of one handle have the same backlog and the same receivers.
pub proof fn same_channel_has_the_same_ends(
    now: EventSender,
    before: EventSender,
    rx: mpsc::Receiver<ComPortEvent>,
)
    requires
        same_channel(now, before),
    ensures
        backlog(now) == backlog(before),
        connected(now, rx) == connected(before, rx),
{
}

} // verus!
