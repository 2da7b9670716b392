use std::cell::{Cell, RefCell};
use std::rc::Rc;

use transaction_actor::actor::{
    ActorError, AsyncDatabaseTransactionHandler, Control, DatabaseTransactable, Wakeup,
    CONNECTION_TIMEOUT_MS,
};
use transaction_actor::model::FailurePolicy;

/// A mock connection: its identity and a shared record of what was applied to it.
struct MockConnection {
    id: u32,
    seen: Rc<RefCell<Vec<(u32, u32)>>>,
}

/// A transaction that records (connection id, transaction id) when applied.
struct Record(u32);

impl DatabaseTransactable<MockConnection> for Record {
    fn handle(self, conn: &mut MockConnection) {
        conn.seen.borrow_mut().push((conn.id, self.0));
    }
}

struct Fixture {
    calls: Rc<Cell<u32>>,
    seen: Rc<RefCell<Vec<(u32, u32)>>>,
}

fn counting_factory(
    fx: &Fixture,
) -> impl Fn() -> Result<MockConnection, String> {
    let calls = fx.calls.clone();
    let seen = fx.seen.clone();
    move || {
        calls.set(calls.get() + 1);
        Ok(MockConnection { id: calls.get(), seen: seen.clone() })
    }
}

fn failing_factory(calls: Rc<Cell<u32>>) -> impl Fn() -> Result<MockConnection, String> {
    move || {
        calls.set(calls.get() + 1);
        Err("no database".to_string())
    }
}

fn fixture() -> Fixture {
    Fixture { calls: Rc::new(Cell::new(0)), seen: Rc::new(RefCell::new(Vec::new())) }
}

#[test]
fn new_handler_uses_default_settings() {
    let fx = fixture();
    let h: AsyncDatabaseTransactionHandler<MockConnection, _> =
        AsyncDatabaseTransactionHandler::new(counting_factory(&fx));
    assert_eq!(h.idle_timeout(), CONNECTION_TIMEOUT_MS);
    assert_eq!(h.idle_timeout(), 20000);
    assert_eq!(h.policy(), FailurePolicy::Halt);
    assert!(!h.is_connected());
    assert!(!h.is_stopped());
    assert_eq!(h.idle_deadline(), None);
    assert_eq!(fx.calls.get(), 0);
}

#[test]
fn first_transaction_creates_the_connection() {
    let fx = fixture();
    let mut h = AsyncDatabaseTransactionHandler::new(counting_factory(&fx));
    assert_eq!(h.process(Record(1), 0), Ok(()));
    assert!(h.is_connected());
    assert_eq!(fx.calls.get(), 1);
    assert_eq!(*fx.seen.borrow(), vec![(1, 1)]);
    assert_eq!(h.idle_deadline(), Some(20000));
}

#[test]
fn many_transactions_share_one_connection() {
    let fx = fixture();
    let mut h = AsyncDatabaseTransactionHandler::with_settings(
        counting_factory(&fx),
        100,
        FailurePolicy::Halt,
    );
    for t in 0..10u32 {
        assert_eq!(h.process(Record(t), (t as u64) * 10), Ok(()));
        assert_eq!(fx.calls.get(), 1);
    }
    assert_eq!(fx.seen.borrow().len(), 10);
    assert!(fx.seen.borrow().iter().all(|(c, _)| *c == 1));
}

#[test]
fn factory_called_once_between_evictions() {
    let fx = fixture();
    let mut h = AsyncDatabaseTransactionHandler::with_settings(
        counting_factory(&fx),
        100,
        FailurePolicy::Halt,
    );
    h.process(Record(1), 0).unwrap();
    h.process(Record(2), 10).unwrap();
    assert!(h.on_idle(110));
    assert!(!h.is_connected());
    h.process(Record(3), 120).unwrap();
    h.process(Record(4), 130).unwrap();
    assert_eq!(fx.calls.get(), 2);
    assert_eq!(*fx.seen.borrow(), vec![(1, 1), (1, 2), (2, 3), (2, 4)]);
}

#[test]
fn transactions_applied_in_submission_order() {
    let fx = fixture();
    let mut h = AsyncDatabaseTransactionHandler::new(counting_factory(&fx));
    let order = [5u32, 3, 9, 1, 7];
    for (i, t) in order.iter().enumerate() {
        h.process(Record(*t), i as u64).unwrap();
    }
    let applied: Vec<u32> = fx.seen.borrow().iter().map(|(_, t)| *t).collect();
    assert_eq!(applied, order.to_vec());
}

#[test]
fn idle_connection_is_evicted_and_replaced() {
    let fx = fixture();
    let d: u64 = 1000;
    let mut h =
        AsyncDatabaseTransactionHandler::with_settings(counting_factory(&fx), d, FailurePolicy::Halt);
    h.process(Record(1), 0).unwrap();
    assert!(!h.on_idle(d - 1));
    assert!(h.is_connected());
    assert!(h.on_idle(d));
    assert!(!h.is_connected());
    assert_eq!(h.idle_deadline(), None);
    h.process(Record(2), d + 5).unwrap();
    assert_eq!(fx.calls.get(), 2);
    assert_eq!(*fx.seen.borrow(), vec![(1, 1), (2, 2)]);
}

#[test]
fn late_transaction_gets_a_fresh_connection_without_a_tick() {
    let fx = fixture();
    let d: u64 = 1000;
    let mut h =
        AsyncDatabaseTransactionHandler::with_settings(counting_factory(&fx), d, FailurePolicy::Halt);
    h.process(Record(1), 0).unwrap();
    h.process(Record(2), d).unwrap();
    assert_eq!(fx.calls.get(), 2);
    assert_eq!(*fx.seen.borrow(), vec![(1, 1), (2, 2)]);
}

#[test]
fn timer_reset_keeps_the_connection() {
    let fx = fixture();
    let d: u64 = 1000;
    let mut h =
        AsyncDatabaseTransactionHandler::with_settings(counting_factory(&fx), d, FailurePolicy::Halt);
    h.process(Record(1), 0).unwrap();
    h.process(Record(2), d / 2).unwrap();
    assert!(!h.on_idle(d / 2 + d / 2 + 1));
    h.process(Record(3), d / 2 + d / 2 + 1).unwrap();
    assert!(h.is_connected());
    assert_eq!(fx.calls.get(), 1);
    assert_eq!(*fx.seen.borrow(), vec![(1, 1), (1, 2), (1, 3)]);
    assert_eq!(h.idle_deadline(), Some(d + 1 + d));
}

#[test]
fn failing_factory_halts_and_applies_nothing() {
    for _run in 0..3 {
        let calls = Rc::new(Cell::new(0));
        let mut h = AsyncDatabaseTransactionHandler::new(failing_factory(calls.clone()));
        assert_eq!(h.process(Record(1), 0), Err(ActorError::ConnectionAcquisitionFailure));
        assert!(h.is_stopped());
        assert!(!h.is_connected());
        assert_eq!(h.process(Record(2), 1), Err(ActorError::Stopped));
        assert_eq!(h.handle_wakeup(Wakeup::Received(Record(3)), 2), Control::Stop);
        assert_eq!(calls.get(), 1);
    }
}

#[test]
fn failing_factory_with_skip_policy_keeps_going() {
    let calls = Rc::new(Cell::new(0));
    let mut h = AsyncDatabaseTransactionHandler::with_settings(
        failing_factory(calls.clone()),
        100,
        FailurePolicy::SkipTransaction,
    );
    for t in 0..4u32 {
        assert_eq!(h.process(Record(t), t as u64), Err(ActorError::ConnectionAcquisitionFailure));
        assert!(!h.is_stopped());
    }
    assert_eq!(calls.get(), 4);
    assert!(!h.is_connected());
}

#[test]
fn closed_mailbox_stops_the_actor() {
    let fx = fixture();
    let mut h = AsyncDatabaseTransactionHandler::new(counting_factory(&fx));
    assert_eq!(h.handle_wakeup(Wakeup::Received(Record(1)), 0), Control::Continue);
    assert!(h.is_connected());
    assert_eq!(h.handle_wakeup(Wakeup::<Record>::Closed, 1), Control::Stop);
    assert!(h.is_stopped());
    assert!(!h.is_connected());
    assert_eq!(h.handle_wakeup(Wakeup::Received(Record(2)), 2), Control::Stop);
    assert_eq!(h.handle_wakeup(Wakeup::<Record>::TimedOut, 3), Control::Stop);
    assert_eq!(*fx.seen.borrow(), vec![(1, 1)]);
    assert_eq!(fx.calls.get(), 1);
}

#[test]
fn timeout_wakeup_evicts_only_after_the_deadline() {
    let fx = fixture();
    let mut h =
        AsyncDatabaseTransactionHandler::with_settings(counting_factory(&fx), 50, FailurePolicy::Halt);
    h.handle_wakeup(Wakeup::Received(Record(1)), 10);
    assert_eq!(h.idle_deadline(), Some(60));
    assert_eq!(h.handle_wakeup(Wakeup::<Record>::TimedOut, 59), Control::Continue);
    assert!(h.is_connected());
    assert_eq!(h.handle_wakeup(Wakeup::<Record>::TimedOut, 60), Control::Continue);
    assert!(!h.is_connected());
}

#[test]
fn idle_deadline_saturates() {
    let fx = fixture();
    let mut h = AsyncDatabaseTransactionHandler::with_settings(
        counting_factory(&fx),
        u64::MAX,
        FailurePolicy::Halt,
    );
    h.process(Record(1), 5).unwrap();
    assert_eq!(h.idle_deadline(), Some(u64::MAX));
    assert!(!h.on_idle(u64::MAX));
}

#[test]
fn earlier_clock_reading_does_not_evict() {
    let fx = fixture();
    let mut h =
        AsyncDatabaseTransactionHandler::with_settings(counting_factory(&fx), 0, FailurePolicy::Halt);
    h.process(Record(1), 100).unwrap();
    assert!(!h.on_idle(99));
    assert!(h.on_idle(100));
}

#[test]
fn accept_connection_takes_the_factory_result() {
    let fx = fixture();
    let mut h = AsyncDatabaseTransactionHandler::with_settings(
        counting_factory(&fx),
        10,
        FailurePolicy::SkipTransaction,
    );
    let failed: Result<MockConnection, &str> = Err("down");
    assert_eq!(h.accept_connection(failed, 0), Err(ActorError::ConnectionAcquisitionFailure));
    assert!(!h.is_connected());
    assert!(!h.is_stopped());
    let conn = MockConnection { id: 42, seen: fx.seen.clone() };
    assert_eq!(h.accept_connection(Ok::<MockConnection, &str>(conn), 3), Ok(()));
    assert!(h.is_connected());
    assert_eq!(h.idle_deadline(), Some(13));
    h.process(Record(9), 4).unwrap();
    assert_eq!(*fx.seen.borrow(), vec![(42, 9)]);
    assert_eq!(fx.calls.get(), 0);
}
