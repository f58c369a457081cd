//! The life of the watcher thread, from registering its window class to dropping its state.
//!
//! A [`WatcherStep`] names the system call that comes next; [`advance`] takes in what the call
//! returned and names the one after it.
use tokio::sync::mpsc;
use vstd::prelude::*;

use crate::event::ComPortEvent;
use crate::text;
use crate::utf16;
use crate::watcher::WatcherState;

verus! {

/// The class name of the hidden watcher window, as a Win32 string.
pub fn watcher_class_name() -> (name: Vec<u16>)
    ensures
        name@ == utf16::encode("ComPortWatcher"@).push(0),
{
    utf16::wide_nul("ComPortWatcher")
}

/// A globally unique identifier, by its fields.
#[derive(Debug, Clone, Copy, PartialEq, Eq)]
pub struct Guid {
    pub data1: u32,
    pub data2: u16,
    pub data3: u16,
    pub data4: [u8; 8],
}

/// `GUID_DEVINTERFACE_COMPORT`, `{86E0D1E0-8089-11D0-9CE4-08003E301F73}`: the class of devices
/// to be notified of.
pub fn comport_interface() -> (guid: Guid)
    ensures
        guid.data1 == 0x86E0D1E0,
        guid.data2 == 0x8089,
        guid.data3 == 0x11D0,
        guid.data4@ == seq![0x9Cu8, 0xE4u8, 0x08u8, 0x00u8, 0x3Eu8, 0x30u8, 0x1Fu8, 0x73u8],
{
    let data4: [u8; 8] = [0x9C, 0xE4, 0x08, 0x00, 0x3E, 0x30, 0x1F, 0x73];
    assert(data4@ =~= seq![0x9Cu8, 0xE4u8, 0x08u8, 0x00u8, 0x3Eu8, 0x30u8, 0x1Fu8, 0x73u8]);
    Guid { data1: 0x86E0D1E0, data2: 0x8089, data3: 0x11D0, data4 }
}

/// What keeps the watcher from starting, each with the system's error code.
#[derive(Debug, Clone, Copy, PartialEq, Eq, Structural)]
pub enum WatcherError {
    /// The hidden window could not be created.
    CreateWindow(u32),
    /// The window could not be registered for device notifications.
    RegisterNotification(u32),
}

impl WatcherError {
    /// Describes the error.
    pub fn message(&self) -> (message: String)
        ensures
            message@ == match *self {
                WatcherError::CreateWindow(code) => "CreateWindowExW failed (error "@
                    + text::decimal(code as nat) + ")"@,
                WatcherError::RegisterNotification(code) =>
                "RegisterDeviceNotificationW failed (error "@ + text::decimal(code as nat) + ")"@,
            },
    {
        let (mut message, code): (String, u32) = match *self {
            WatcherError::CreateWindow(code) => (
                "CreateWindowExW failed (error ".to_owned(),
                code,
            ),
            WatcherError::RegisterNotification(code) => (
                "RegisterDeviceNotificationW failed (error ".to_owned(),
                code,
            ),
        };
        let digits: String = text::decimal_text(code);
        message.append(digits.as_str());
        message.append(")");
        message
    }
}

/// What the watcher thread does next.
#[derive(Debug, Clone, Copy, PartialEq, Eq, Structural)]
pub enum WatcherStep {
    /// Register the window class. That it may be registered already is harmless.
    RegisterClass,
    /// Create a message-only window.
    CreateWindow,
    /// Take the first snapshot of the ports and attach the watcher state to the window.
    AttachState { window: isize },
    /// Register the window for COM-port notifications.
    RegisterNotification { window: isize },
    /// Wait for a message.
    GetMessage { window: isize, notification: usize },
    /// Dispatch the message to the window procedure.
    DispatchMessage { window: isize, notification: usize },
    /// Find out whether the consumer of the events is still there.
    CheckConsumer { window: isize, notification: usize },
    /// Give the notifications up.
    UnregisterNotification { window: isize, notification: usize },
    /// Detach the watcher state from the window.
    DetachState { window: isize },
    /// Drop the watcher state.
    DropState,
    /// The thread is done.
    Finished,
    /// The thread cannot go on.
    Failed(WatcherError),
}

/// What a step returned.
#[derive(Debug, Clone, Copy, PartialEq, Eq, Structural)]
pub enum WatcherReply {
    /// The step was carried out; its result does not matter.
    Done,
    /// The handle of the window that was created, zero for none, and the last error code.
    Window { window: isize, last_error: u32 },
    /// The handle of the notification, zero for none, and the last error code.
    Notification { notification: usize, last_error: u32 },
    /// The status of waiting for a message: zero for `WM_QUIT`, -1 for an error, anything else
    /// for a message.
    Message { status: i32 },
    /// Whether the consumer is gone.
    Consumer { gone: bool },
}

/// Whether a reply is one that the step can return.
pub open spec fn answers(step: WatcherStep, reply: WatcherReply) -> bool {
    match step {
        WatcherStep::CreateWindow => reply is Window,
        WatcherStep::RegisterNotification { .. } => reply is Notification,
        WatcherStep::GetMessage { .. } => reply is Message,
        WatcherStep::CheckConsumer { .. } => reply is Consumer,
        WatcherStep::Finished => false,
        WatcherStep::Failed(_) => false,
        _ => reply is Done,
    }
}

/// The step that follows a reply.
pub open spec fn next_step(step: WatcherStep, reply: WatcherReply) -> WatcherStep {
    match (step, reply) {
        (WatcherStep::RegisterClass, _) => WatcherStep::CreateWindow,
        (WatcherStep::CreateWindow, WatcherReply::Window { window, last_error }) => if window == 0 {
            WatcherStep::Failed(WatcherError::CreateWindow(last_error))
        } else {
            WatcherStep::AttachState { window }
        },
        (WatcherStep::AttachState { window }, _) => WatcherStep::RegisterNotification { window },
        (
            WatcherStep::RegisterNotification { window },
            WatcherReply::Notification { notification, last_error },
        ) => if notification == 0 {
            WatcherStep::Failed(WatcherError::RegisterNotification(last_error))
        } else {
            WatcherStep::GetMessage { window, notification }
        },
        (
            WatcherStep::GetMessage { window, notification },
            WatcherReply::Message { status },
        ) => if status == 0 || status == -1 {
            WatcherStep::UnregisterNotification { window, notification }
        } else {
            WatcherStep::DispatchMessage { window, notification }
        },
        (WatcherStep::DispatchMessage { window, notification }, _) => WatcherStep::CheckConsumer {
            window,
            notification,
        },
        (
            WatcherStep::CheckConsumer { window, notification },
            WatcherReply::Consumer { gone },
        ) => if gone {
            WatcherStep::UnregisterNotification { window, notification }
        } else {
            WatcherStep::GetMessage { window, notification }
        },
        (WatcherStep::UnregisterNotification { window, .. }, _) => WatcherStep::DetachState {
            window,
        },
        (WatcherStep::DetachState { .. }, _) => WatcherStep::DropState,
        (WatcherStep::DropState, _) => WatcherStep::Finished,
        _ => step,
    }
}

/// Decides the next step from what the last one returned.
pub fn advance(step: WatcherStep, reply: WatcherReply) -> (next: WatcherStep)
    requires
        answers(step, reply),
    ensures
        next == next_step(step, reply),
{
    match (step, reply) {
        (WatcherStep::RegisterClass, _) => WatcherStep::CreateWindow,
        (WatcherStep::CreateWindow, WatcherReply::Window { window, last_error }) => {
            if window == 0 {
                WatcherStep::Failed(WatcherError::CreateWindow(last_error))
            } else {
                WatcherStep::AttachState { window }
            }
        },
        (WatcherStep::AttachState { window }, _) => WatcherStep::RegisterNotification { window },
        (
            WatcherStep::RegisterNotification { window },
            WatcherReply::Notification { notification, last_error },
        ) => {
            if notification == 0 {
                WatcherStep::Failed(WatcherError::RegisterNotification(last_error))
            } else {
                WatcherStep::GetMessage { window, notification }
            }
        },
        (WatcherStep::GetMessage { window, notification }, WatcherReply::Message { status }) => {
            if status == 0 || status == -1 {
                WatcherStep::UnregisterNotification { window, notification }
            } else {
                WatcherStep::DispatchMessage { window, notification }
            }
        },
        (WatcherStep::DispatchMessage { window, notification }, _) => WatcherStep::CheckConsumer {
            window,
            notification,
        },
        (WatcherStep::CheckConsumer { window, notification }, WatcherReply::Consumer { gone }) => {
            if gone {
                WatcherStep::UnregisterNotification { window, notification }
            } else {
                WatcherStep::GetMessage { window, notification }
            }
        },
        (WatcherStep::UnregisterNotification { window, .. }, _) => WatcherStep::DetachState {
            window,
        },
        (WatcherStep::DetachState { .. }, _) => WatcherStep::DropState,
        (WatcherStep::DropState, _) => WatcherStep::Finished,
        _ => step,
    }
}

/// Asks the channel, once, whether the consumer is gone and decides the next step from the
/// answer. Once the consumer has been found gone, the thread starts to clean up.
pub fn check_consumer(step: WatcherStep, state: &mut WatcherState) -> (next: WatcherStep)
    requires
        step is CheckConsumer,
    ensures
        final(state).consumer_checks().len() == old(state).consumer_checks().len() + 1,
        final(state).consumer_checks().drop_last() == old(state).consumer_checks(),
        next == next_step(
            step,
            (WatcherReply::Consumer { gone: final(state).consumer_checks().last() }),
        ),
        step matches WatcherStep::CheckConsumer { window, notification } ==> next == (
        if final(state).consumer_checks().last() {
            WatcherStep::UnregisterNotification { window, notification }
        } else {
            WatcherStep::GetMessage { window, notification }
        }),
        old(state).found_consumer_gone() ==> final(state).consumer_checks().last(),
        final(state).found_consumer_gone() == (old(state).found_consumer_gone()
            || final(state).consumer_checks().last()),
        final(state).known() == old(state).known(),
        final(state).offered() == old(state).offered(),
        final(state).reported() == old(state).reported(),
        final(state).backlog() == old(state).backlog(),
        forall|rx: mpsc::Receiver<ComPortEvent>| #[trigger]
            final(state).feeds(rx) == old(state).feeds(rx),
{
    let gone: bool = state.consumer_gone();
    assert(state.consumer_checks().drop_last() =~= old(state).consumer_checks());
    advance(step, WatcherReply::Consumer { gone })
}

/// The step that a thread has reached after these replies.
pub open spec fn reached(replies: Seq<WatcherReply>) -> WatcherStep
    decreases replies.len(),
{
    if replies.len() == 0 {
        WatcherStep::RegisterClass
    } else {
        next_step(reached(replies.drop_last()), replies.last())
    }
}

/// Whether each reply answers the step that was reached before it.
pub open spec fn is_run(replies: Seq<WatcherReply>) -> bool
    decreases replies.len(),
{
    replies.len() == 0 || (is_run(replies.drop_last()) && answers(
        reached(replies.drop_last()),
        replies.last(),
    ))
}

/// The window that the watcher state is attached to while a step is carried out.
pub open spec fn attached_window(step: WatcherStep) -> Option<isize> {
    match step {
        WatcherStep::RegisterNotification { window } => Some(window),
        WatcherStep::GetMessage { window, .. } => Some(window),
        WatcherStep::DispatchMessage { window, .. } => Some(window),
        WatcherStep::CheckConsumer { window, .. } => Some(window),
        WatcherStep::UnregisterNotification { window, .. } => Some(window),
        WatcherStep::DetachState { window } => Some(window),
        _ => None,
    }
}

/// The notification that is registered while a step is carried out.
pub open spec fn live_notification(step: WatcherStep) -> Option<usize> {
    match step {
        WatcherStep::GetMessage { notification, .. } => Some(notification),
        WatcherStep::DispatchMessage { notification, .. } => Some(notification),
        WatcherStep::CheckConsumer { notification, .. } => Some(notification),
        WatcherStep::UnregisterNotification { notification, .. } => Some(notification),
        _ => None,
    }
}

/// Whether the system returned this window when the window was to be created.
pub open spec fn created_window(replies: Seq<WatcherReply>, window: isize) -> bool {
    replies.len() >= 2 && match replies[1] {
        WatcherReply::Window { window: created, .. } => created == window,
        _ => false,
    }
}

/// Whether the system returned this notification when it was to be registered.
pub open spec fn registered_notification(replies: Seq<WatcherReply>, notification: usize) -> bool {
    replies.len() >= 4 && match replies[3] {
        WatcherReply::Notification { notification: registered, .. } => registered == notification,
        _ => false,
    }
}

/// The handles that a run works with are those that the system returned when the window and the
/// notification were made, and are never null.
pub proof fn handles_come_from_the_system(replies: Seq<WatcherReply>)
    requires
        is_run(replies),
    ensures
        reached(replies) matches WatcherStep::AttachState { window } ==> (window != 0
            && created_window(replies, window)),
        attached_window(reached(replies)) matches Some(window) ==> (window != 0
            && created_window(replies, window)),
        live_notification(reached(replies)) matches Some(notification) ==> (notification != 0
            && registered_notification(replies, notification)),
    decreases replies.len(),
{
    if replies.len() > 0 {
        let front = replies.drop_last();
        handles_come_from_the_system(front);
        setup_takes_fixed_places(front);
    }
}

/// The steps of the setup come one after another, before any other.
proof fn setup_takes_fixed_places(replies: Seq<WatcherReply>)
    requires
        is_run(replies),
    ensures
        reached(replies) is RegisterClass ==> replies.len() == 0,
        reached(replies) is CreateWindow ==> replies.len() == 1,
        reached(replies) is AttachState ==> replies.len() == 2,
        reached(replies) is RegisterNotification ==> replies.len() == 3,
    decreases replies.len(),
{
    if replies.len() > 0 {
        setup_takes_fixed_places(replies.drop_last());
    }
}

/// What was set up stays until its own step takes it down: unless the thread fails, the state
/// stays attached to its window up to the step that detaches it, and the notification stays
/// registered up to the step that gives it up.
pub proof fn setup_lasts_until_undone(step: WatcherStep, reply: WatcherReply)
    requires
        answers(step, reply),
        !(next_step(step, reply) is Failed),
    ensures
        attached_window(step) matches Some(window) ==> attached_window(next_step(step, reply))
            == Some(window) || step == (WatcherStep::DetachState { window }),
        live_notification(step) matches Some(notification) ==> live_notification(
            next_step(step, reply),
        ) == Some(notification) || (step matches WatcherStep::UnregisterNotification {
            notification: given_up,
            ..
        } && given_up == notification),
{
}

/// The state is dropped only when it hangs on no window any more and no notification can
/// arrive.
pub proof fn state_is_dropped_last(step: WatcherStep, reply: WatcherReply)
    requires
        answers(step, reply),
        next_step(step, reply) is DropState,
    ensures
        step is DetachState,
        attached_window(next_step(step, reply)) is None,
        live_notification(next_step(step, reply)) is None,
{
}

/// How far a step is into the cleanup: zero before it, then the number of the step.
pub open spec fn cleanup_phase(step: WatcherStep) -> nat {
    match step {
        WatcherStep::UnregisterNotification { .. } => 1,
        WatcherStep::DetachState { .. } => 2,
        WatcherStep::DropState => 3,
        WatcherStep::Finished => 4,
        _ => 0,
    }
}

/// A cleanup runs straight through: where a run is in a phase of it, the phases before it were
/// its last steps, and no step before those belonged to the cleanup.
proof fn cleanup_runs_through(replies: Seq<WatcherReply>)
    requires
        is_run(replies),
    ensures
        forall|i: int|
            0 <= i < replies.len() + 1 - cleanup_phase(reached(replies)) ==> cleanup_phase(
                reached(#[trigger] replies.take(i)),
            ) == 0,
    decreases replies.len(),
{
    let phase = cleanup_phase(reached(replies));
    if replies.len() > 0 {
        let front = replies.drop_last();
        cleanup_runs_through(front);
        assert(phase == 0 ==> cleanup_phase(reached(front)) == 0);
        assert(phase > 0 ==> cleanup_phase(reached(front)) == phase - 1);
        assert forall|i: int| 0 <= i < replies.len() + 1 - phase implies cleanup_phase(
            reached(#[trigger] replies.take(i)),
        ) == 0 by {
            if i < replies.len() {
                assert(replies.take(i) =~= front.take(i));
            } else {
                assert(replies.take(i) =~= replies);
            }
        }
    } else {
        assert(replies.take(0) =~= replies);
    }
}

/// A thread that comes to its end has undone its setup, once: its last three steps gave up the
/// notification, detached the state from the window and dropped it, with the very handles that
/// the system had returned, and no step before them did any of this.
pub proof fn finished_run_has_cleaned_up(replies: Seq<WatcherReply>)
    requires
        is_run(replies),
        reached(replies) is Finished,
    ensures
        exists|window: isize, notification: usize|
            {
                &&& #[trigger] created_window(replies, window)
                &&& #[trigger] registered_notification(replies, notification)
                &&& reached(replies.take(replies.len() - 3)) == (
                WatcherStep::UnregisterNotification { window, notification })
                &&& reached(replies.take(replies.len() - 2)) == (WatcherStep::DetachState {
                    window,
                })
                &&& reached(replies.take(replies.len() - 1)) == WatcherStep::DropState
            },
        forall|i: int|
            0 <= i < replies.len() - 3 ==> {
                let step = reached(#[trigger] replies.take(i));
                !(step is UnregisterNotification) && !(step is DetachState) && !(step is DropState)
            },
{
    cleanup_runs_through(replies);
    let one = replies.drop_last();
    assert(replies.take(replies.len() - 1) =~= one);
    assert(is_run(one) && reached(one) is DropState);
    let two = one.drop_last();
    assert(replies.take(replies.len() - 2) =~= two);
    assert(is_run(two) && reached(two) is DetachState);
    let three = two.drop_last();
    assert(replies.take(replies.len() - 3) =~= three);
    assert(is_run(three) && reached(three) is UnregisterNotification);
    handles_come_from_the_system(three);
    let window = attached_window(reached(three))->0;
    let notification = live_notification(reached(three))->0;
    assert(reached(three) == (WatcherStep::UnregisterNotification { window, notification }));
    assert(created_window(replies, window));
    assert(registered_notification(replies, notification));
}

/// Messages are pumped until `WM_QUIT`, an error or the end of the consumer: a message that was
/// fetched is dispatched, and then the thread waits for the next one, with the same handles, as
/// long as the consumer is there; in each of the other cases it starts to clean up.
pub proof fn pump_runs_until_told_to_stop(
    window: isize,
    notification: usize,
    status: i32,
    gone: bool,
)
    ensures
        ({
            let waiting = WatcherStep::GetMessage { window, notification };
            let cleanup = WatcherStep::UnregisterNotification { window, notification };
            let fetched = next_step(waiting, WatcherReply::Message { status });
            let dispatched = next_step(fetched, WatcherReply::Done);
            let checked = next_step(dispatched, WatcherReply::Consumer { gone });
            if status == 0 || status == -1 {
                fetched == cleanup
            } else {
                &&& fetched == (WatcherStep::DispatchMessage { window, notification })
                &&& checked == if gone {
                    cleanup
                } else {
                    waiting
                }
            }
        }),
{
}

/// The setup succeeds whenever the system calls succeed: for any handle but null, whatever the
/// last error code is, the step after creating the window attaches the state to it, and the step
/// after registering the notification waits for messages with both handles. In between, the
/// thread goes from one step to the next whatever was returned.
pub proof fn setup_succeeds_on_any_handle(
    window: isize,
    notification: usize,
    last_error: u32,
    any: WatcherReply,
)
    requires
        window != 0,
        notification != 0,
    ensures
        reached(Seq::empty()) == WatcherStep::RegisterClass,
        next_step(WatcherStep::RegisterClass, any) == WatcherStep::CreateWindow,
        next_step(WatcherStep::CreateWindow, (WatcherReply::Window { window, last_error })) == (
        WatcherStep::AttachState { window }),
        next_step((WatcherStep::AttachState { window }), any)
            == (WatcherStep::RegisterNotification { window }),
        next_step(
            (WatcherStep::RegisterNotification { window }),
            (WatcherReply::Notification { notification, last_error }),
        ) == (WatcherStep::GetMessage { window, notification }),
{
}

/// A null handle fails the setup, with the error code that the system gave for that call.
pub proof fn null_handle_fails_the_setup(window: isize, last_error: u32)
    ensures
        next_step(WatcherStep::CreateWindow, (WatcherReply::Window { window: 0, last_error }))
            == WatcherStep::Failed(WatcherError::CreateWindow(last_error)),
        next_step(
            (WatcherStep::RegisterNotification { window }),
            (WatcherReply::Notification { notification: 0, last_error }),
        ) == WatcherStep::Failed(WatcherError::RegisterNotification(last_error)),
{
}

/// Nothing but a null handle fails a thread: where a run has failed, the last reply was a null
/// handle for the call that the error names, with the code that the error holds.
pub proof fn only_a_null_handle_fails(replies: Seq<WatcherReply>, error: WatcherError)
    requires
        is_run(replies),
        reached(replies) == WatcherStep::Failed(error),
    ensures
        replies.len() > 0,
        match error {
            WatcherError::CreateWindow(code) => replies.last() == (WatcherReply::Window {
                window: 0,
                last_error: code,
            }),
            WatcherError::RegisterNotification(code) => replies.last() == (
            WatcherReply::Notification { notification: 0, last_error: code }),
        },
{
}

/// The cleanup goes through its steps, with the same handles, whatever was returned.
pub proof fn cleanup_goes_step_by_step(window: isize, notification: usize, any: WatcherReply)
    ensures
        next_step((WatcherStep::UnregisterNotification { window, notification }), any) == (
        WatcherStep::DetachState { window }),
        next_step((WatcherStep::DetachState { window }), any) == WatcherStep::DropState,
        next_step(WatcherStep::DropState, any) == WatcherStep::Finished,
{
}

/// A step admits every reply that its call can give, whatever handle, code, status or answer is
/// in it.
pub proof fn every_reply_of_the_system_is_taken(
    window: isize,
    notification: usize,
    handle: isize,
    registered: usize,
    last_error: u32,
    status: i32,
    gone: bool,
)
    ensures
        answers(WatcherStep::RegisterClass, WatcherReply::Done),
        answers(WatcherStep::CreateWindow, (WatcherReply::Window { window: handle, last_error })),
        answers((WatcherStep::AttachState { window }), WatcherReply::Done),
        answers(
            (WatcherStep::RegisterNotification { window }),
            (WatcherReply::Notification { notification: registered, last_error }),
        ),
        answers(
            (WatcherStep::GetMessage { window, notification }),
            (WatcherReply::Message { status }),
        ),
        answers((WatcherStep::DispatchMessage { window, notification }), WatcherReply::Done),
        answers(
            (WatcherStep::CheckConsumer { window, notification }),
            (WatcherReply::Consumer { gone }),
        ),
        answers((WatcherStep::UnregisterNotification { window, notification }), WatcherReply::Done),
        answers((WatcherStep::DetachState { window }), WatcherReply::Done),
        answers(WatcherStep::DropState, WatcherReply::Done),
{
}

} // verus!
