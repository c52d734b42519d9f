use std::sync::atomic::{AtomicUsize, Ordering};
use std::sync::Arc;
use std::task::{Wake, Waker};

use libd2d::minion::point_of_interest;
use libd2d::{Coordinate, MinionHeartbeat, MinionState};

struct CountingWaker {
    wakes: AtomicUsize,
}

impl Wake for CountingWaker {
    fn wake(self: Arc<Self>) {
        self.wakes.fetch_add(1, Ordering::SeqCst);
    }
}

fn counting() -> (Arc<CountingWaker>, Waker) {
    let c = Arc::new(CountingWaker { wakes: AtomicUsize::new(0) });
    let w = Waker::from(c.clone());
    (c, w)
}

fn noop() -> Waker {
    futures::task::noop_waker()
}

#[test]
fn tick_then_poll_yields_once() {
    let mut s = MinionState::new(Coordinate { x: 0, y: 0 });
    s.set_ready(None);
    s.tick();
    assert_eq!(s.position, Coordinate { x: 1, y: 0 });
    assert!(!s.poi);
    assert_eq!(
        s.poll_heartbeat(noop()),
        Some(MinionHeartbeat { position: Coordinate { x: 1, y: 0 }, poi: false })
    );
    assert_eq!(s.poll_heartbeat(noop()), None);
    assert_eq!(s.poll_heartbeat(noop()), None);
    s.tick();
    assert_eq!(
        s.poll_heartbeat(noop()),
        Some(MinionHeartbeat { position: Coordinate { x: 2, y: 0 }, poi: true })
    );
}

#[test]
fn not_ready_never_yields() {
    let mut s = MinionState::new(Coordinate { x: 0, y: 0 });
    s.tick();
    assert_eq!(s.poll_heartbeat(noop()), None);
    assert!(s.heartbeat);
    assert!(s.waker.is_some());
}

#[test]
fn idle_polls_register_latest_waker_only() {
    let mut s = MinionState::new(Coordinate { x: 3, y: 4 });
    s.set_ready(None);
    let (first, w1) = counting();
    let (second, w2) = counting();
    for _ in 0..100 {
        assert_eq!(s.poll_heartbeat(w1.clone()), None);
    }
    assert_eq!(s.poll_heartbeat(w2), None);
    assert_eq!(s.position, Coordinate { x: 3, y: 4 });
    assert!(!s.heartbeat);
    let resumed = s.tick();
    resumed.expect("a poll was waiting").wake();
    assert_eq!(first.wakes.load(Ordering::SeqCst), 0);
    assert_eq!(second.wakes.load(Ordering::SeqCst), 1);
    assert!(s.waker.is_none());
}

#[test]
fn tick_without_waiting_poll_resumes_nobody() {
    let mut s = MinionState::new(Coordinate { x: 0, y: 0 });
    s.set_ready(None);
    assert!(s.tick().is_none());
    assert!(s.tick().is_none());
    assert_eq!(
        s.poll_heartbeat(noop()),
        Some(MinionHeartbeat { position: Coordinate { x: 2, y: 0 }, poi: true })
    );
    assert_eq!(s.poll_heartbeat(noop()), None);
}

#[test]
fn publish_tick_stores_snapshot() {
    let mut s = MinionState::new(Coordinate { x: 0, y: 0 });
    s.set_ready(None);
    assert!(s.publish_tick(Coordinate { x: -7, y: 9 }, true).is_none());
    assert_eq!(
        s.poll_heartbeat(noop()),
        Some(MinionHeartbeat { position: Coordinate { x: -7, y: 9 }, poi: true })
    );
}

#[test]
fn point_of_interest_is_even_x() {
    assert!(point_of_interest(Coordinate { x: 0, y: 1 }));
    assert!(!point_of_interest(Coordinate { x: 1, y: 0 }));
    assert!(point_of_interest(Coordinate { x: -4, y: 0 }));
    assert!(!point_of_interest(Coordinate { x: -3, y: 0 }));
}

#[test]
fn inc_x_moves_one_cell() {
    let mut c = Coordinate { x: -1, y: 5 };
    c.inc_x();
    assert_eq!(c, Coordinate { x: 0, y: 5 });
}
