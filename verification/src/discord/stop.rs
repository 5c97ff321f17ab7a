//! What is done for a stopped account, and in which order.

use vstd::prelude::*;

verus! {

/// How long a stopped gateway task is waited for, in seconds.
pub const STOP_TIMEOUT_SECS: u64 = 5;

/// What is done for a stopped account at present.
#[derive(Debug, Clone, Copy, PartialEq, Eq, Structural)]
pub enum StopAction {
    /// Cancel the gateway task by the account's cancel token.
    Cancel { task_known: bool },
    /// Wait for the end of the gateway task, though no longer than the timeout.
    AwaitTask { timeout_secs: u64 },
    /// Nothing: the account is stopped.
    Finished,
}

/// What came of it.
#[derive(Debug, Clone, Copy, PartialEq, Eq, Structural)]
pub enum StopEvent {
    /// The cancel token is cancelled.
    Cancelled,
    /// The gateway task ended, regularly or not.
    TaskEnded,
    /// The gateway task did not end in time.
    TimedOut,
}

/// What is done after an event. An event that does not belong to the present action
/// changes nothing.
pub open spec fn stop_next(action: StopAction, event: StopEvent) -> StopAction {
    match (action, event) {
        (StopAction::Cancel { task_known }, StopEvent::Cancelled) => if task_known {
            StopAction::AwaitTask { timeout_secs: STOP_TIMEOUT_SECS }
        } else {
            StopAction::Finished
        },
        (StopAction::AwaitTask { .. }, StopEvent::TaskEnded) => StopAction::Finished,
        (StopAction::AwaitTask { .. }, StopEvent::TimedOut) => StopAction::Finished,
        (action, _) => action,
    }
}

/// What is done after a sequence of events.
pub open spec fn stop_after(action: StopAction, events: Seq<StopEvent>) -> StopAction
    decreases events.len(),
{
    if events.len() == 0 {
        action
    } else {
        stop_next(stop_after(action, events.drop_last()), events.last())
    }
}

/// What is done after an event.
pub fn stop_step(action: StopAction, event: StopEvent) -> (next: StopAction)
    ensures
        next == stop_next(action, event),
{
    match (action, event) {
        (StopAction::Cancel { task_known }, StopEvent::Cancelled) => if task_known {
            StopAction::AwaitTask { timeout_secs: STOP_TIMEOUT_SECS }
        } else {
            StopAction::Finished
        },
        (StopAction::AwaitTask { .. }, StopEvent::TaskEnded) => StopAction::Finished,
        (StopAction::AwaitTask { .. }, StopEvent::TimedOut) => StopAction::Finished,
        (action, _) => action,
    }
}

/// Whether a wait for the gateway task has ended.
pub open spec fn ends_wait(event: StopEvent) -> bool {
    event is TaskEnded || event is TimedOut
}

/// The gateway task is waited for only after its token has been cancelled, only
/// where the task is known, and for no longer than the timeout.
pub proof fn law_wait_follows_cancel(task_known: bool, events: Seq<StopEvent>)
    ensures
        stop_after(StopAction::Cancel { task_known }, events) matches StopAction::AwaitTask {
            timeout_secs,
        } ==> {
            &&& task_known
            &&& timeout_secs == STOP_TIMEOUT_SECS
            &&& exists|i: int| 0 <= i < events.len() && #[trigger] events[i] is Cancelled
        },
{
    lemma_stop_order(task_known, events);
}

/// An account is stopped only after its token has been cancelled and, where its task
/// is known, after the wait that follows has ended.
pub proof fn law_stop_ends_after_cancel_and_wait(task_known: bool, events: Seq<StopEvent>)
    requires
        stop_after(StopAction::Cancel { task_known }, events) is Finished,
    ensures
        exists|i: int| 0 <= i < events.len() && #[trigger] events[i] is Cancelled,
        task_known ==> exists|i: int, j: int|
            0 <= i < j < events.len() && #[trigger] events[i] is Cancelled && ends_wait(
                #[trigger] events[j],
            ),
{
    lemma_stop_order(task_known, events);
}

proof fn lemma_stop_order(task_known: bool, events: Seq<StopEvent>)
    ensures
        ({
            let now = stop_after(StopAction::Cancel { task_known }, events);
            &&& now is Cancel ==> now == (StopAction::Cancel { task_known })
            &&& now is AwaitTask ==> task_known && now == (StopAction::AwaitTask {
                timeout_secs: STOP_TIMEOUT_SECS,
            })
            &&& !(now is Cancel) ==> exists|i: int|
                0 <= i < events.len() && #[trigger] events[i] is Cancelled
            &&& now is Finished && task_known ==> exists|i: int, j: int|
                0 <= i < j < events.len() && #[trigger] events[i] is Cancelled && ends_wait(
                    #[trigger] events[j],
                )
        }),
    decreases events.len(),
{
    if events.len() > 0 {
        let earlier = events.drop_last();
        lemma_stop_order(task_known, earlier);
        let before = stop_after(StopAction::Cancel { task_known }, earlier);
        let last = events.len() - 1;
        assert(events[last] == events.last());
        if !(before is Cancel) {
            let i = choose|i: int| 0 <= i < earlier.len() && #[trigger] earlier[i] is Cancelled;
            assert(events[i] is Cancelled);
            if before is Finished && task_known {
                let (i, j) = choose|i: int, j: int|
                    0 <= i < j < earlier.len() && #[trigger] earlier[i] is Cancelled && ends_wait(
                        #[trigger] earlier[j],
                    );
                assert(events[i] is Cancelled);
                assert(ends_wait(events[j]));
            } else if before is AwaitTask && ends_wait(events.last()) {
                assert(ends_wait(events[last]));
            }
        }
    }
}

/// Cancelling and, where there is a task, any end of the wait finish the stop: a
/// task that fails or does not end in time does not hold it up.
pub proof fn law_stop_always_finishes(task_known: bool, end: StopEvent)
    requires
        ends_wait(end),
    ensures
        stop_next(stop_next(StopAction::Cancel { task_known }, StopEvent::Cancelled), end) is Finished,
{
}

/// Each step of a stop follows from the one before it and from nothing else. The
/// wait for the task begins when the token of an account with a known task is
/// cancelled, and lasts for at most five seconds. The stop is over when the token of
/// an account without a task is cancelled, or when the task ends or does not end in
/// time. Every other event leaves everything as it is.
pub proof fn law_stop_steps(
    action: StopAction,
    event: StopEvent,
    task_known: bool,
    timeout_secs: u64,
)
    ensures
        stop_next(action, event) == (StopAction::Cancel { task_known }) <==> action == (
        StopAction::Cancel { task_known }) && !(event is Cancelled),
        stop_next(action, event) == (StopAction::AwaitTask { timeout_secs }) <==> (action == (
        StopAction::Cancel { task_known: true }) && event is Cancelled && timeout_secs == 5) || (action
            == (StopAction::AwaitTask { timeout_secs }) && event is Cancelled),
        stop_next(action, event) is Finished <==> (action == (StopAction::Cancel {
            task_known: false,
        }) && event is Cancelled) || (action is AwaitTask && (event is TaskEnded || event is TimedOut))
            || action is Finished,
{
}


} // verus!
