use vstd::prelude::*;

use crate::model::{
    acquires_only_when_free, acquisitions_separated, after_close, after_step, after_tick,
    after_transaction, applied_below, applied_in_order, consistent, holds_connection, idle_expired,
    initial_view, release, run, Activity, ActorView, FailurePolicy, Step,
};

verus! {

proof fn lemma_push(log: Seq<Activity>, e: Activity, n: nat, m: nat)
    ensures
        holds_connection(log.push(e)) == match e {
            Activity::Acquired => true,
            Activity::Released => false,
            _ => holds_connection(log),
        },
        acquires_only_when_free(log) && (e == Activity::Acquired ==> !holds_connection(log))
            ==> acquires_only_when_free(log.push(e)),
        applied_in_order(log) && applied_below(log, n) && (e is Applied ==> e->Applied_0 >= n)
            ==> applied_in_order(log.push(e)),
        applied_below(log, n) && n <= m && (e is Applied ==> e->Applied_0 < m) ==> applied_below(
            log.push(e),
            m,
        ),
{
    let l = log.push(e);
    assert(l.drop_last() =~= log);
    assert(l.take(log.len() as int) =~= log);
    if acquires_only_when_free(log) && (e == Activity::Acquired ==> !holds_connection(log)) {
        assert forall|j: int|
            0 <= j < l.len() && #[trigger] l[j] == Activity::Acquired implies !holds_connection(
            l.take(j),
        ) by {
            if j < log.len() {
                assert(l.take(j) =~= log.take(j));
                assert(log[j] == Activity::Acquired);
            }
        }
    }
    if applied_in_order(log) && applied_below(log, n) && (e is Applied ==> e->Applied_0 >= n) {
        assert forall|i: int, j: int|
            0 <= i < j < l.len() && #[trigger] l[i] is Applied && #[trigger] l[j] is Applied implies l[i]->Applied_0
            < l[j]->Applied_0 by {
            assert(log[i] is Applied);
            if j < log.len() {
                assert(log[j] is Applied);
            }
        }
    }
    if applied_below(log, n) && n <= m && (e is Applied ==> e->Applied_0 < m) {
        assert forall|i: int| 0 <= i < l.len() && #[trigger] l[i] is Applied implies l[i]->Applied_0 < m by {
            if i < log.len() {
                assert(log[i] is Applied);
            }
        }
    }
}

proof fn lemma_release_consistent(v: ActorView)
    requires
        consistent(v),
    ensures
        consistent(release(v)),
{
    lemma_push(v.log, Activity::Released, v.received, v.received);
}

/// Every step keeps the invariant, and only ever appends to the history.
pub proof fn lemma_step_consistent(v: ActorView, s: Step)
    requires
        consistent(v),
    ensures
        consistent(after_step(v, s)),
        v.log.is_prefix_of(after_step(v, s).log),
        after_step(v, s).idle_timeout == v.idle_timeout,
        after_step(v, s).policy == v.policy,
        v.stopped ==> after_step(v, s) == v,
{
    let w = after_step(v, s);
    match s {
        Step::Transaction { now, factory_ok } => {
            if !v.stopped {
                let fresh = if idle_expired(v, now) { release(v) } else { v };
                if idle_expired(v, now) {
                    lemma_release_consistent(v);
                }
                let n = v.received;
                if fresh.connected {
                    lemma_push(fresh.log, Activity::Applied(n), n, n + 1);
                } else if factory_ok {
                    lemma_push(fresh.log, Activity::Acquired, n, n);
                    lemma_push(fresh.log.push(Activity::Acquired), Activity::Applied(n), n, n + 1);
                } else {
                    lemma_push(fresh.log, Activity::AcquisitionFailed, n, n + 1);
                }
            }
        },
        Step::Tick { now } => {
            if !v.stopped && idle_expired(v, now) {
                lemma_release_consistent(v);
            }
        },
        Step::Close => {
            if !v.stopped {
                let r = if v.connected { release(v) } else { v };
                if v.connected {
                    lemma_release_consistent(v);
                }
                lemma_push(r.log, Activity::Stopped, r.received, r.received);
            }
        },
    }
    assert(v.log.is_prefix_of(w.log));
}

/// Any sequence of steps keeps the invariant and only appends to the history.
pub proof fn lemma_run_consistent(v: ActorView, steps: Seq<Step>)
    requires
        consistent(v),
    ensures
        consistent(run(v, steps)),
        v.log.is_prefix_of(run(v, steps).log),
        run(v, steps).idle_timeout == v.idle_timeout,
        run(v, steps).policy == v.policy,
    decreases steps.len(),
{
    if steps.len() > 0 {
        lemma_run_consistent(v, steps.drop_last());
        lemma_step_consistent(run(v, steps.drop_last()), steps.last());
    }
}

proof fn lemma_free_means_released(log: Seq<Activity>, i: int)
    requires
        !holds_connection(log),
        0 <= i < log.len(),
        log[i] == Activity::Acquired,
    ensures
        exists|k: int| i < k < log.len() && log[k] == Activity::Released,
    decreases log.len(),
{
    let last = log.len() - 1;
    if log[last] != Activity::Released {
        assert(i < last);
        lemma_free_means_released(log.drop_last(), i);
        let k = choose|k: int| i < k < last && log.drop_last()[k] == Activity::Released;
        assert(log[k] == Activity::Released);
    }
}

proof fn lemma_free_acquisitions_separated(log: Seq<Activity>)
    requires
        acquires_only_when_free(log),
    ensures
        acquisitions_separated(log),
{
    assert forall|i: int, j: int|
        0 <= i < j < log.len() && #[trigger] log[i] == Activity::Acquired && #[trigger] log[j]
            == Activity::Acquired implies exists|k: int|
        i < k < j && #[trigger] log[k] == Activity::Released by {
        let prefix = log.take(j);
        assert(!holds_connection(prefix));
        assert(prefix[i] == Activity::Acquired);
        lemma_free_means_released(prefix, i);
        let k = choose|k: int| i < k < prefix.len() && prefix[k] == Activity::Released;
        assert(log[k] == Activity::Released);
    }
}

/// At most one connection: whatever events reach a fresh actor, in whatever
/// order, the factory is only called while no connection is held, and between
/// any two connections it returned the first one was released.
pub proof fn lemma_at_most_one_connection(
    idle_timeout: u64,
    policy: FailurePolicy,
    steps: Seq<Step>,
)
    ensures
        ({
            let w = run(initial_view(idle_timeout, policy), steps);
            &&& w.connected == holds_connection(w.log)
            &&& acquires_only_when_free(w.log)
            &&& acquisitions_separated(w.log)
        }),
{
    lemma_run_consistent(initial_view(idle_timeout, policy), steps);
    lemma_free_acquisitions_separated(run(initial_view(idle_timeout, policy), steps).log);
}

/// Ordering: whatever events reach a fresh actor, transactions are applied
/// in the order in which the actor received them.
pub proof fn lemma_applied_in_order(idle_timeout: u64, policy: FailurePolicy, steps: Seq<Step>)
    ensures
        applied_in_order(run(initial_view(idle_timeout, policy), steps).log),
{
    lemma_run_consistent(initial_view(idle_timeout, policy), steps);
}

/// Idle eviction: once a transaction has been applied at `t0`, a wake-up at
/// any time `t` at least the idle timeout later releases the connection, and
/// so does a transaction arriving then, which calls the factory for a new one.
pub proof fn lemma_idle_eviction(v: ActorView, t0: u64, t: u64, factory_ok: bool)
    requires
        consistent(v),
        !v.stopped,
        t - t0 >= v.idle_timeout as int,
    ensures
        ({
            let v1 = after_transaction(v, t0, true);
            let n = v1.received;
            &&& v1.connected
            &&& after_tick(v1, t) == release(v1)
            &&& after_transaction(v1, t, factory_ok).log == if factory_ok {
                v1.log.push(Activity::Released).push(Activity::Acquired).push(Activity::Applied(n))
            } else {
                v1.log.push(Activity::Released).push(Activity::AcquisitionFailed)
            }
            &&& after_transaction(release(v1), t, factory_ok).log == if factory_ok {
                v1.log.push(Activity::Released).push(Activity::Acquired).push(Activity::Applied(n))
            } else {
                v1.log.push(Activity::Released).push(Activity::AcquisitionFailed)
            }
        }),
{
}

/// Timer reset: transactions at `t1`, `t2` and `t3`, each less than the idle
/// timeout after the one before, share one connection; the factory is not
/// called for the later two and no wake-up in between releases it.
pub proof fn lemma_timer_reset(
    v: ActorView,
    t1: u64,
    t2: u64,
    t3: u64,
    tick: u64,
    ok2: bool,
    ok3: bool,
)
    requires
        consistent(v),
        !v.stopped,
        t2 - t1 < v.idle_timeout as int,
        t3 - t2 < v.idle_timeout as int,
        tick - t2 < v.idle_timeout as int,
    ensures
        ({
            let v1 = after_transaction(v, t1, true);
            let v2 = after_transaction(v1, t2, ok2);
            let v3 = after_transaction(v2, t3, ok3);
            let n = v1.received;
            &&& v1.connected && v2.connected && v3.connected
            &&& after_tick(v2, tick) == v2
            &&& v3.log == v1.log.push(Activity::Applied(n)).push(Activity::Applied(n + 1))
            &&& v3.idle_since == t3
        }),
{
}

/// A fresh actor whose factory always fails applies no transaction; under
/// the halting policy its whole history is at most one entry, and under the
/// skipping policy it records one failure per transaction and nothing else
/// but a final stop.
pub proof fn lemma_failing_factory(idle_timeout: u64, policy: FailurePolicy, steps: Seq<Step>)
    requires
        forall|i: int| 0 <= i < steps.len() && #[trigger] steps[i] is Transaction ==> !steps[i]->Transaction_factory_ok,
    ensures
        ({
            let w = run(initial_view(idle_timeout, policy), steps);
            &&& !w.connected
            &&& forall|i: int| 0 <= i < w.log.len() ==> !(#[trigger] w.log[i] is Applied) && w.log[i]
                != Activity::Acquired
            &&& policy == FailurePolicy::Halt ==> w.log.len() <= 1 && (w.stopped <==> w.log.len()
                == 1)
        }),
    decreases steps.len(),
{
    if steps.len() > 0 {
        let prev = steps.drop_last();
        assert forall|i: int| 0 <= i < prev.len() && #[trigger] prev[i] is Transaction implies !prev[i]->Transaction_factory_ok by {
            assert(steps[i] == prev[i]);
        }
        lemma_failing_factory(idle_timeout, policy, prev);
        let u = run(initial_view(idle_timeout, policy), prev);
        lemma_run_consistent(initial_view(idle_timeout, policy), prev);
        let s = steps.last();
        assert(steps[steps.len() - 1] == s);
        let w = after_step(u, s);
        assert forall|i: int| 0 <= i < w.log.len() implies !(#[trigger] w.log[i] is Applied) && w.log[i]
            != Activity::Acquired by {
            if i < u.log.len() {
                assert(u.log.push(Activity::AcquisitionFailed)[i] == u.log[i]);
                assert(u.log.push(Activity::Stopped)[i] == u.log[i]);
            }
        }
    }
}

/// Shutdown: once the mailbox reports that no producer remains, the actor is
/// stopped, holds no connection, and no later event changes it.
pub proof fn lemma_shutdown(v: ActorView, steps: Seq<Step>)
    requires
        consistent(v),
    ensures
        after_close(v).stopped,
        !after_close(v).connected,
        run(after_close(v), steps) == after_close(v),
    decreases steps.len(),
{
    lemma_step_consistent(v, Step::Close);
    if steps.len() > 0 {
        lemma_shutdown(v, steps.drop_last());
    }
}

} // verus!
