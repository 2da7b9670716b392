use vstd::prelude::*;

verus! {

/// What the actor does when the connection factory fails.
#[derive(PartialEq, Eq, Structural, Clone, Copy, Debug)]
pub enum FailurePolicy {
    /// Stop the actor: no further transaction is processed.
    Halt,
    /// Drop the transaction that needed the connection and go on with the next one.
    SkipTransaction,
}

/// One entry of the actor's history, as seen from the connection's side.
pub enum Activity {
    /// The factory was called and returned a connection.
    Acquired,
    /// The factory was called and failed.
    AcquisitionFailed,
    /// The transaction received with this sequence number was applied.
    Applied(nat),
    /// The connection was dropped.
    Released,
    /// The actor stopped because its mailbox closed.
    Stopped,
}

/// The abstract state of an actor: its connection state, settings and history.
pub struct ActorView {
    pub connected: bool,
    /// When the connection last became idle (meaningful while connected).
    pub idle_since: u64,
    pub idle_timeout: u64,
    pub policy: FailurePolicy,
    pub stopped: bool,
    /// How many transactions have been handed to the actor.
    pub received: nat,
    pub log: Seq<Activity>,
}

/// One event that reaches the actor loop.
pub enum Step {
    /// A transaction arrived at `now`; `factory_ok` is what the factory would do if called.
    Transaction { now: u64, factory_ok: bool },
    /// The wait ended without a transaction at `now`.
    Tick { now: u64 },
    /// Every submit handle is gone and the mailbox is empty.
    Close,
}

pub open spec fn initial_view(idle_timeout: u64, policy: FailurePolicy) -> ActorView {
    ActorView {
        connected: false,
        idle_since: 0,
        idle_timeout,
        policy,
        stopped: false,
        received: 0,
        log: seq![],
    }
}

/// The connection has been idle for at least the timeout at time `now`.
pub open spec fn idle_expired(v: ActorView, now: u64) -> bool {
    v.connected && now as int - v.idle_since as int >= v.idle_timeout as int
}

pub open spec fn release(v: ActorView) -> ActorView {
    ActorView { connected: false, idle_since: 0, log: v.log.push(Activity::Released), ..v }
}

/// A transaction arriving at `now` makes the actor call the factory.
pub open spec fn needs_connection(v: ActorView, now: u64) -> bool {
    !v.stopped && (!v.connected || idle_expired(v, now))
}

/// The factory returned a connection at `now`.
pub open spec fn acquired(v: ActorView, now: u64) -> ActorView {
    ActorView { connected: true, idle_since: now, log: v.log.push(Activity::Acquired), ..v }
}

/// The factory failed for the next transaction, which is dropped.
pub open spec fn acquisition_failed(v: ActorView) -> ActorView {
    ActorView {
        received: v.received + 1,
        stopped: v.policy == FailurePolicy::Halt,
        log: v.log.push(Activity::AcquisitionFailed),
        ..v
    }
}

/// The next transaction was applied at `now`, which restarts the idle time.
pub open spec fn applied(v: ActorView, now: u64) -> ActorView {
    ActorView {
        idle_since: now,
        received: v.received + 1,
        log: v.log.push(Activity::Applied(v.received)),
        ..v
    }
}

/// The state after a transaction arrives at `now`; `factory_ok` matters only
/// where `needs_connection` holds.
pub open spec fn after_transaction(v: ActorView, now: u64, factory_ok: bool) -> ActorView {
    if v.stopped {
        v
    } else {
        let fresh = if idle_expired(v, now) { release(v) } else { v };
        if fresh.connected {
            applied(fresh, now)
        } else if factory_ok {
            applied(acquired(fresh, now), now)
        } else {
            acquisition_failed(fresh)
        }
    }
}

/// The state after the wait ends without a transaction at `now`.
pub open spec fn after_tick(v: ActorView, now: u64) -> ActorView {
    if !v.stopped && idle_expired(v, now) {
        release(v)
    } else {
        v
    }
}

/// The state after the mailbox reports that no producer remains.
pub open spec fn after_close(v: ActorView) -> ActorView {
    if v.stopped {
        v
    } else {
        let r = if v.connected { release(v) } else { v };
        ActorView { stopped: true, log: r.log.push(Activity::Stopped), ..r }
    }
}

pub open spec fn after_step(v: ActorView, s: Step) -> ActorView {
    match s {
        Step::Transaction { now, factory_ok } => after_transaction(v, now, factory_ok),
        Step::Tick { now } => after_tick(v, now),
        Step::Close => after_close(v),
    }
}

/// The state after the steps, in order.
pub open spec fn run(v: ActorView, steps: Seq<Step>) -> ActorView
    decreases steps.len(),
{
    if steps.len() == 0 {
        v
    } else {
        after_step(run(v, steps.drop_last()), steps.last())
    }
}

/// The history ends with a connection that has not been released.
pub open spec fn holds_connection(log: Seq<Activity>) -> bool
    decreases log.len(),
{
    if log.len() == 0 {
        false
    } else {
        match log.last() {
            Activity::Acquired => true,
            Activity::Released => false,
            _ => holds_connection(log.drop_last()),
        }
    }
}

/// Every acquisition happens while no connection is held.
pub open spec fn acquires_only_when_free(log: Seq<Activity>) -> bool {
    forall|j: int|
        0 <= j < log.len() && #[trigger] log[j] == Activity::Acquired ==> !holds_connection(
            log.take(j),
        )
}

/// Between any two acquisitions there is a release.
pub open spec fn acquisitions_separated(log: Seq<Activity>) -> bool {
    forall|i: int, j: int|
        0 <= i < j < log.len() && #[trigger] log[i] == Activity::Acquired && #[trigger] log[j]
            == Activity::Acquired ==> exists|k: int|
            i < k < j && #[trigger] log[k] == Activity::Released
}

/// Transactions are applied in the order in which they were received.
pub open spec fn applied_in_order(log: Seq<Activity>) -> bool {
    forall|i: int, j: int|
        0 <= i < j < log.len() && #[trigger] log[i] is Applied && #[trigger] log[j] is Applied
            ==> log[i]->Applied_0 < log[j]->Applied_0
}

/// Every applied sequence number is one that was received.
pub open spec fn applied_below(log: Seq<Activity>, received: nat) -> bool {
    forall|i: int| 0 <= i < log.len() && #[trigger] log[i] is Applied ==> log[i]->Applied_0 < received
}

/// The invariant that every reachable state keeps.
pub open spec fn consistent(v: ActorView) -> bool {
    &&& v.stopped ==> !v.connected
    &&& v.connected == holds_connection(v.log)
    &&& acquires_only_when_free(v.log)
    &&& applied_in_order(v.log)
    &&& applied_below(v.log, v.received)
}

} // verus!
