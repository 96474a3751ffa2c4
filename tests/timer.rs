use mini_runtime::status::{Status, WakeHandle};
use mini_runtime::timer::{sleep_for, Timer};
use mini_runtime::waiters::Waiters;

fn handle(task: usize, serial: u64) -> WakeHandle {
    WakeHandle { task, serial }
}

#[test]
fn timer_pending_before_deadline_with_one_thread() {
    let mut w = Waiters::new();
    let mut t = Timer::new(100);
    for now in [0u64, 10, 50, 99] {
        assert_eq!(t.poll(&mut w, now, handle(0, now)), Status::Pending);
        assert_eq!(w.len(), 1);
    }
    assert_eq!(t.cell, Some(0));
    assert_eq!(w.get(0).deadline, 100);
    assert!(!w.get(0).fired);
}

#[test]
fn timer_ready_at_and_after_deadline() {
    let mut w = Waiters::new();
    let mut t = Timer::new(100);
    assert_eq!(t.poll(&mut w, 100, handle(0, 0)), Status::Ready(()));
    let mut t2 = Timer::new(100);
    assert_eq!(t2.poll(&mut w, 5000, handle(1, 0)), Status::Ready(()));
    // the first poll still starts the waiting thread; it fires harmlessly
    assert_eq!(w.len(), 2);
}

#[test]
fn timer_ready_whether_or_not_thread_fired() {
    let mut w = Waiters::new();
    let mut t = Timer::new(20);
    assert_eq!(t.poll(&mut w, 0, handle(0, 0)), Status::Pending);
    let mut u = t;
    assert_eq!(u.poll(&mut w, 25, handle(0, 1)), Status::Ready(()));
    assert_eq!(w.fire(0), Some(handle(0, 1)));
    assert_eq!(t.poll(&mut w, 25, handle(0, 2)), Status::Ready(()));
    assert_eq!(w.len(), 1);
}

#[test]
fn timer_last_poll_wins() {
    let mut w = Waiters::new();
    let mut t = Timer::new(50);
    let h1 = handle(1, 0);
    let h2 = handle(2, 7);
    assert_eq!(t.poll(&mut w, 0, h1), Status::Pending);
    assert_eq!(t.poll(&mut w, 1, h2), Status::Pending);
    assert_eq!(w.len(), 1);
    assert_eq!(w.get(0).handle, h2);
    assert_eq!(w.fire(0), Some(h2));
}

#[test]
fn timer_same_handle_leaves_cell_unchanged() {
    let mut w = Waiters::new();
    let mut t = Timer::new(50);
    let h = handle(3, 4);
    t.poll(&mut w, 0, h);
    let before = w.get(0);
    t.poll(&mut w, 1, h);
    assert_eq!(w.get(0), before);
}

#[test]
fn wait_cell_fires_once() {
    let mut w = Waiters::new();
    let c = w.arm(10, handle(0, 0));
    assert_eq!(c, 0);
    assert_eq!(w.fire(c), Some(handle(0, 0)));
    assert!(w.get(c).fired);
    assert_eq!(w.fire(c), None);
}

#[test]
fn sleep_for_values() {
    assert_eq!(sleep_for(3, 10), 7);
    assert_eq!(sleep_for(10, 10), 0);
    assert_eq!(sleep_for(12, 10), 0);
    assert_eq!(sleep_for(0, u64::MAX), u64::MAX);
}
