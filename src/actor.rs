use vstd::prelude::*;

use crate::model::{
    acquired, acquisition_failed, after_close, after_tick, after_transaction, applied, consistent,
    idle_expired, initial_view, needs_connection, Activity, ActorView, FailurePolicy,
};

verus! {

/// The idle time after which a connection is dropped, in milliseconds.
pub const CONNECTION_TIMEOUT_MS: u64 = 20000;

/// A unit of work that is applied once to the connection, consuming itself.
pub trait DatabaseTransactable<U> {
    fn handle(self, conn: &mut U);
}

/// The actor's connection: none, or one together with the time it became idle.
pub enum ConnectionState<U> {
    Disconnected,
    Connected { connection: U, idle_since: u64 },
}

/// Why a transaction was not applied.
#[derive(PartialEq, Eq, Structural, Clone, Copy, Debug)]
pub enum ActorError {
    /// The factory failed to produce a connection.
    ConnectionAcquisitionFailure,
    /// The actor has stopped and takes no more work.
    Stopped,
}

/// What ended the actor loop's wait.
pub enum Wakeup<T> {
    Received(T),
    TimedOut,
    Closed,
}

/// What the actor loop does next.
#[derive(PartialEq, Eq, Structural, Clone, Copy, Debug)]
pub enum Control {
    Continue,
    Stop,
}

/// The result of a transaction arriving in state `v` at `now`.
pub open spec fn transaction_result(v: ActorView, now: u64, factory_ok: bool) -> Result<
    (),
    ActorError,
> {
    if v.stopped {
        Err(ActorError::Stopped)
    } else if needs_connection(v, now) && !factory_ok {
        Err(ActorError::ConnectionAcquisitionFailure)
    } else {
        Ok(())
    }
}

pub open spec fn control_of(v: ActorView) -> Control {
    if v.stopped {
        Control::Stop
    } else {
        Control::Continue
    }
}

/// The single consumer that owns the connection: it creates it lazily with
/// `conn_builder`, applies each transaction to it in turn, and drops it once
/// it has been idle for the timeout.
pub struct AsyncDatabaseTransactionHandler<U, V> {
    state: ConnectionState<U>,
    conn_builder: V,
    idle_timeout: u64,
    policy: FailurePolicy,
    stopped: bool,
    received: Ghost<nat>,
    log: Ghost<Seq<Activity>>,
}

impl<U, V> View for AsyncDatabaseTransactionHandler<U, V> {
    type V = ActorView;

    closed spec fn view(&self) -> ActorView {
        ActorView {
            connected: self.state is Connected,
            idle_since: match self.state {
                ConnectionState::Connected { idle_since, .. } => idle_since,
                ConnectionState::Disconnected => 0,
            },
            idle_timeout: self.idle_timeout,
            policy: self.policy,
            stopped: self.stopped,
            received: self.received@,
            log: self.log@,
        }
    }
}

impl<U, V> AsyncDatabaseTransactionHandler<U, V> {
    /// The handler's state is one that the model can reach.
    pub open spec fn wf(&self) -> bool {
        consistent(self@)
    }

    pub closed spec fn builder(&self) -> V {
        self.conn_builder
    }

    /// A handler with the default idle timeout that halts when the factory fails.
    pub fn new(conn_builder: V) -> (r: Self)
        ensures
            r.wf(),
            r@ == initial_view(CONNECTION_TIMEOUT_MS, FailurePolicy::Halt),
            r.builder() == conn_builder,
    {
        Self::with_settings(conn_builder, CONNECTION_TIMEOUT_MS, FailurePolicy::Halt)
    }

    /// A handler with the given idle timeout (milliseconds) and failure policy.
    pub fn with_settings(conn_builder: V, idle_timeout: u64, policy: FailurePolicy) -> (r: Self)
        ensures
            r.wf(),
            r@ == initial_view(idle_timeout, policy),
            r.builder() == conn_builder,
    {
        let r = AsyncDatabaseTransactionHandler {
            state: ConnectionState::Disconnected,
            conn_builder,
            idle_timeout,
            policy,
            stopped: false,
            received: Ghost(0),
            log: Ghost(Seq::empty()),
        };
        assert(r@.log =~= initial_view(idle_timeout, policy).log);
        r
    }

    pub fn is_connected(&self) -> (r: bool)
        ensures
            r == self@.connected,
    {
        match &self.state {
            ConnectionState::Connected { .. } => true,
            ConnectionState::Disconnected => false,
        }
    }

    pub fn is_stopped(&self) -> (r: bool)
        ensures
            r == self@.stopped,
    {
        self.stopped
    }

    pub fn idle_timeout(&self) -> (r: u64)
        ensures
            r == self@.idle_timeout,
    {
        self.idle_timeout
    }

    pub fn policy(&self) -> (r: FailurePolicy)
        ensures
            r == self@.policy,
    {
        self.policy
    }

    /// When the connection, if any, is due to be dropped (saturating at the
    /// largest time); the actor loop waits for a transaction until then.
    pub fn idle_deadline(&self) -> (r: Option<u64>)
        ensures
            !self@.connected ==> r is None,
            self@.connected ==> r == Some(
                if self@.idle_since + self@.idle_timeout <= u64::MAX {
                    (self@.idle_since + self@.idle_timeout) as u64
                } else {
                    u64::MAX
                },
            ),
    {
        match &self.state {
            ConnectionState::Connected { idle_since, .. } => Some(
                idle_since.saturating_add(self.idle_timeout),
            ),
            ConnectionState::Disconnected => None,
        }
    }

    fn expired(&self, now: u64) -> (r: bool)
        ensures
            r == idle_expired(self@, now),
    {
        match &self.state {
            ConnectionState::Connected { idle_since, .. } => now >= *idle_since && now
                - *idle_since >= self.idle_timeout,
            ConnectionState::Disconnected => false,
        }
    }

    fn release(&mut self)
        requires
            old(self)@.connected,
        ensures
            final(self)@ == crate::model::release(old(self)@),
            final(self).conn_builder == old(self).conn_builder,
    {
        self.state = ConnectionState::Disconnected;
        self.log = Ghost(self.log@.push(Activity::Released));
    }

    /// The wait ended at `now` without a transaction: drop the connection if
    /// it has been idle for the timeout.
    pub fn on_idle(&mut self, now: u64) -> (evicted: bool)
        requires
            old(self).wf(),
        ensures
            final(self).wf(),
            final(self)@ == after_tick(old(self)@, now),
            evicted == (!old(self)@.stopped && idle_expired(old(self)@, now)),
            final(self).builder() == old(self).builder(),
    {
        proof {
            crate::laws::lemma_step_consistent(self@, crate::model::Step::Tick { now });
        }
        if !self.stopped && self.expired(now) {
            self.release();
            true
        } else {
            false
        }
    }

    /// Every submit handle is gone and the mailbox is empty: drop the
    /// connection and stop.
    pub fn on_closed(&mut self)
        requires
            old(self).wf(),
        ensures
            final(self).wf(),
            final(self)@ == after_close(old(self)@),
            final(self).builder() == old(self).builder(),
    {
        proof {
            crate::laws::lemma_step_consistent(self@, crate::model::Step::Close);
        }
        if !self.stopped {
            if self.is_connected() {
                self.release();
            }
            self.stopped = true;
            self.log = Ghost(self.log@.push(Activity::Stopped));
        }
    }

    /// Takes what the factory returned for a transaction arriving at `now`:
    /// holds the connection, or records the failure and applies the policy.
    pub fn accept_connection<E>(&mut self, built: Result<U, E>, now: u64) -> (r: Result<
        (),
        ActorError,
    >)
        requires
            !old(self)@.connected,
            !old(self)@.stopped,
        ensures
            final(self).builder() == old(self).builder(),
            built is Ok ==> final(self)@ == acquired(old(self)@, now),
            built is Err ==> final(self)@ == acquisition_failed(old(self)@),
            built is Ok ==> r == Ok::<(), ActorError>(()),
            built is Err ==> r == Err::<(), ActorError>(ActorError::ConnectionAcquisitionFailure),
    {
        match built {
            Ok(connection) => {
                self.state = ConnectionState::Connected { connection, idle_since: now };
                self.log = Ghost(self.log@.push(Activity::Acquired));
                Ok(())
            },
            Err(_) => {
                self.received = Ghost(self.received@ + 1);
                self.log = Ghost(self.log@.push(Activity::AcquisitionFailed));
                self.stopped = self.policy == FailurePolicy::Halt;
                Err(ActorError::ConnectionAcquisitionFailure)
            },
        }
    }

    fn apply<T: DatabaseTransactable<U>>(&mut self, transaction: T, now: u64)
        requires
            old(self)@.connected,
        ensures
            final(self).builder() == old(self).builder(),
            final(self)@ == applied(old(self)@, now),
    {
        match &mut self.state {
            ConnectionState::Connected { connection, idle_since } => {
                transaction.handle(connection);
                *idle_since = now;
            },
            ConnectionState::Disconnected => {},
        }
        self.log = Ghost(self.log@.push(Activity::Applied(self.received@)));
        self.received = Ghost(self.received@ + 1);
    }
}

impl<U, V, E> AsyncDatabaseTransactionHandler<U, V> where V: Fn() -> Result<U, E> {
    /// A transaction arrived at `now`: drop a connection that has been idle
    /// for the timeout, call the factory if no connection is held, and apply
    /// the transaction to the connection. The factory's outcome decides which
    /// of the model's two successors is reached.
    pub fn process<T: DatabaseTransactable<U>>(&mut self, transaction: T, now: u64) -> (r: Result<
        (),
        ActorError,
    >)
        requires
            old(self).wf(),
            old(self).builder().requires(()),
        ensures
            final(self).wf(),
            final(self).builder() == old(self).builder(),
            (exists|factory_ok: bool|
                final(self)@ == after_transaction(old(self)@, now, factory_ok) && r
                    == transaction_result(old(self)@, now, factory_ok)),
            !needs_connection(old(self)@, now) ==> final(self)@ == after_transaction(
                old(self)@,
                now,
                true,
            ),
            !needs_connection(old(self)@, now) ==> r == transaction_result(old(self)@, now, true),
    {
        let ghost v = self@;
        proof {
            crate::laws::lemma_step_consistent(
                v,
                crate::model::Step::Transaction { now, factory_ok: true },
            );
            crate::laws::lemma_step_consistent(
                v,
                crate::model::Step::Transaction { now, factory_ok: false },
            );
        }
        if self.stopped {
            return Err(ActorError::Stopped);
        }
        if self.expired(now) {
            self.release();
        }
        if !self.is_connected() {
            let built = (self.conn_builder)();
            let accepted = self.accept_connection(built, now);
            if accepted.is_err() {
                assert(self@ == after_transaction(v, now, false));
                return accepted;
            }
        }
        self.apply(transaction, now);
        assert(self@ == after_transaction(v, now, true));
        Ok(())
    }

    /// One turn of the actor loop: act on what ended the wait at `now`, and
    /// say whether the loop goes on.
    pub fn handle_wakeup<T: DatabaseTransactable<U>>(&mut self, wakeup: Wakeup<T>, now: u64) -> (r:
        Control)
        requires
            old(self).wf(),
            old(self).builder().requires(()),
        ensures
            final(self).wf(),
            final(self).builder() == old(self).builder(),
            r == control_of(final(self)@),
            wakeup is TimedOut ==> final(self)@ == after_tick(old(self)@, now),
            wakeup is Closed ==> final(self)@ == after_close(old(self)@),
            wakeup is Closed ==> r == Control::Stop,
            wakeup is Received ==> (exists|factory_ok: bool|
                final(self)@ == after_transaction(old(self)@, now, factory_ok)),
    {
        match wakeup {
            Wakeup::Received(transaction) => {
                let _ = self.process(transaction, now);
            },
            Wakeup::TimedOut => {
                self.on_idle(now);
            },
            Wakeup::Closed => {
                self.on_closed();
            },
        }
        if self.stopped {
            Control::Stop
        } else {
            Control::Continue
        }
    }
}

} // verus!
