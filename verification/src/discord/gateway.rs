//! The background task that keeps the gateway connection of one account.

use vstd::prelude::*;

verus! {

/// How long a task waits after its shards have shut down, in milliseconds, so that
/// the gateway session is torn down before another client may connect.
pub const SETTLE_MILLIS: u64 = 500;

/// What a gateway task does at present.
#[derive(Debug, Clone, Copy, PartialEq, Eq, Structural)]
pub enum GatewayAction {
    /// Build the client.
    BuildClient,
    /// Store the client's HTTP handle with the account.
    StoreHttp,
    /// Run the client until it stops or the task is cancelled.
    RunClient,
    /// Shut all shards of the client down.
    ShutDownShards,
    /// Wait for the given time.
    Settle { millis: u64 },
    /// Nothing: the task is over.
    Finished,
}

/// What came of it.
#[derive(Debug, Clone, Copy, PartialEq, Eq, Structural)]
pub enum GatewayEvent {
    /// The client is built.
    ClientBuilt,
    /// The client could not be built.
    BuildFailed,
    /// The account, if it is still there, has the HTTP handle.
    HttpStored,
    /// The client stopped by itself, with an error or without.
    ClientStopped,
    /// The task was cancelled while the client ran.
    Cancelled,
    /// The shards have shut down.
    ShardsDown,
    /// The wait is over.
    Settled,
}

/// What the task does after an event. An event that does not belong to the present
/// action changes nothing.
pub open spec fn gateway_next(action: GatewayAction, event: GatewayEvent) -> GatewayAction {
    match (action, event) {
        (GatewayAction::BuildClient, GatewayEvent::ClientBuilt) => GatewayAction::StoreHttp,
        (GatewayAction::BuildClient, GatewayEvent::BuildFailed) => GatewayAction::Finished,
        (GatewayAction::StoreHttp, GatewayEvent::HttpStored) => GatewayAction::RunClient,
        (GatewayAction::RunClient, GatewayEvent::ClientStopped) => GatewayAction::Finished,
        (GatewayAction::RunClient, GatewayEvent::Cancelled) => GatewayAction::ShutDownShards,
        (GatewayAction::ShutDownShards, GatewayEvent::ShardsDown) => GatewayAction::Settle {
            millis: SETTLE_MILLIS,
        },
        (GatewayAction::Settle { .. }, GatewayEvent::Settled) => GatewayAction::Finished,
        (action, _) => action,
    }
}

/// What the task does after a sequence of events.
pub open spec fn gateway_after(action: GatewayAction, events: Seq<GatewayEvent>) -> GatewayAction
    decreases events.len(),
{
    if events.len() == 0 {
        action
    } else {
        gateway_next(gateway_after(action, events.drop_last()), events.last())
    }
}

/// What a new task does first.
pub fn gateway_start() -> (action: GatewayAction)
    ensures
        action == GatewayAction::BuildClient,
{
    GatewayAction::BuildClient
}

/// What the task does after an event.
pub fn gateway_step(action: GatewayAction, event: GatewayEvent) -> (next: GatewayAction)
    ensures
        next == gateway_next(action, event),
{
    match (action, event) {
        (GatewayAction::BuildClient, GatewayEvent::ClientBuilt) => GatewayAction::StoreHttp,
        (GatewayAction::BuildClient, GatewayEvent::BuildFailed) => GatewayAction::Finished,
        (GatewayAction::StoreHttp, GatewayEvent::HttpStored) => GatewayAction::RunClient,
        (GatewayAction::RunClient, GatewayEvent::ClientStopped) => GatewayAction::Finished,
        (GatewayAction::RunClient, GatewayEvent::Cancelled) => GatewayAction::ShutDownShards,
        (GatewayAction::ShutDownShards, GatewayEvent::ShardsDown) => GatewayAction::Settle {
            millis: SETTLE_MILLIS,
        },
        (GatewayAction::Settle { .. }, GatewayEvent::Settled) => GatewayAction::Finished,
        (action, _) => action,
    }
}

/// A task that is cancelled while its client runs is over only after its shards
/// have shut down and the wait that follows is over, in this order.
pub proof fn law_cancelled_task_shuts_down_first(events: Seq<GatewayEvent>)
    requires
        gateway_after(
            gateway_next(GatewayAction::RunClient, GatewayEvent::Cancelled),
            events,
        ) is Finished,
    ensures
        exists|i: int, j: int|
            0 <= i < j < events.len() && #[trigger] events[i] is ShardsDown
                && #[trigger] events[j] is Settled,
{
    lemma_shutdown_order(events);
}

proof fn lemma_shutdown_order(events: Seq<GatewayEvent>)
    ensures
        ({
            let now = gateway_after(GatewayAction::ShutDownShards, events);
            ||| now is ShutDownShards
            ||| now is Settle && exists|i: int|
                0 <= i < events.len() && #[trigger] events[i] is ShardsDown
            ||| now is Finished && exists|i: int, j: int|
                0 <= i < j < events.len() && #[trigger] events[i] is ShardsDown
                    && #[trigger] events[j] is Settled
        }),
    decreases events.len(),
{
    if events.len() > 0 {
        let earlier = events.drop_last();
        lemma_shutdown_order(earlier);
        let before = gateway_after(GatewayAction::ShutDownShards, earlier);
        let last = events.len() - 1;
        if before is ShutDownShards {
            if events.last() is ShardsDown {
                assert(events[last] is ShardsDown);
            }
        } else if before is Settle {
            let i = choose|i: int| 0 <= i < earlier.len() && #[trigger] earlier[i] is ShardsDown;
            assert(events[i] is ShardsDown);
            if events.last() is Settled {
                assert(events[last] is Settled);
            }
        } else {
            let (i, j) = choose|i: int, j: int|
                0 <= i < j < earlier.len() && #[trigger] earlier[i] is ShardsDown
                    && #[trigger] earlier[j] is Settled;
            assert(events[i] is ShardsDown);
            assert(events[j] is Settled);
        }
    }
}

/// A task whose client cannot be built is over and stays so.
pub proof fn law_failed_build_ends_task(events: Seq<GatewayEvent>)
    ensures
        gateway_after(
            gateway_next(GatewayAction::BuildClient, GatewayEvent::BuildFailed),
            events,
        ) is Finished,
    decreases events.len(),
{
    if events.len() > 0 {
        law_failed_build_ends_task(events.drop_last());
    }
}

/// Each action of a gateway task follows from the one before it and from nothing
/// else. The HTTP handle is stored when the client is built, and the client runs
/// when the handle is stored. The shards shut down when the running client is
/// cancelled, and half a second of waiting follows. The task is over when the client
/// cannot be built, when it stops by itself, or after that wait. Every other event
/// leaves everything as it is.
pub proof fn law_gateway_steps(action: GatewayAction, event: GatewayEvent, millis: u64)
    ensures
        gateway_next(action, event) is BuildClient <==> action is BuildClient && !(event is ClientBuilt)
            && !(event is BuildFailed),
        gateway_next(action, event) is StoreHttp <==> (action is BuildClient && event is ClientBuilt)
            || (action is StoreHttp && !(event is HttpStored)),
        gateway_next(action, event) is RunClient <==> (action is StoreHttp && event is HttpStored)
            || (action is RunClient && !(event is ClientStopped) && !(event is Cancelled)),
        gateway_next(action, event) is ShutDownShards <==> (action is RunClient && event is Cancelled)
            || (action is ShutDownShards && !(event is ShardsDown)),
        gateway_next(action, event) == (GatewayAction::Settle { millis }) <==> (action is ShutDownShards
            && event is ShardsDown && millis == 500) || (action == (GatewayAction::Settle { millis })
            && !(event is Settled)),
        gateway_next(action, event) is Finished <==> (action is BuildClient && event is BuildFailed) || (
        action is RunClient && event is ClientStopped) || (action is Settle && event is Settled)
            || action is Finished,
{
}

/// The client of a task runs only after it was built and after its HTTP handle was
/// stored, in this order.
pub proof fn law_client_runs_with_stored_http(events: Seq<GatewayEvent>)
    requires
        gateway_after(GatewayAction::BuildClient, events) is RunClient,
    ensures
        exists|i: int, j: int|
            0 <= i < j < events.len() && #[trigger] events[i] is ClientBuilt
                && #[trigger] events[j] is HttpStored,
{
    lemma_launch_order(events);
}

proof fn lemma_launch_order(events: Seq<GatewayEvent>)
    ensures
        ({
            let now = gateway_after(GatewayAction::BuildClient, events);
            &&& now is StoreHttp ==> exists|i: int|
                0 <= i < events.len() && #[trigger] events[i] is ClientBuilt
            &&& now is RunClient ==> exists|i: int, j: int|
                0 <= i < j < events.len() && #[trigger] events[i] is ClientBuilt
                    && #[trigger] events[j] is HttpStored
        }),
    decreases events.len(),
{
    if events.len() > 0 {
        let earlier = events.drop_last();
        lemma_launch_order(earlier);
        let before = gateway_after(GatewayAction::BuildClient, earlier);
        let last = events.len() - 1;
        assert(events[last] == events.last());
        if before is StoreHttp {
            let i = choose|i: int| 0 <= i < earlier.len() && #[trigger] earlier[i] is ClientBuilt;
            assert(events[i] is ClientBuilt);
        } else if before is RunClient {
            let (i, j) = choose|i: int, j: int|
                0 <= i < j < earlier.len() && #[trigger] earlier[i] is ClientBuilt
                    && #[trigger] earlier[j] is HttpStored;
            assert(events[i] is ClientBuilt);
            assert(events[j] is HttpStored);
        }
    }
}


} // verus!
