use mini_runtime::computation::Computation;
use mini_runtime::status::{Status, WakeHandle};
use mini_runtime::waiters::Waiters;

fn handle(serial: u64) -> WakeHandle {
    WakeHandle { task: 0, serial }
}

#[test]
fn delay_completes_at_deadline() {
    let mut w = Waiters::new();
    let mut c = Computation::delay(10);
    assert_eq!(c.poll(&mut w, 0, handle(0)), Status::Pending);
    assert_eq!(c.poll(&mut w, 10, handle(1)), Status::Ready(()));
    assert_eq!(w.len(), 1);
}

#[test]
fn sequence_waits_one_after_another() {
    let mut w = Waiters::new();
    let mut c = Computation::sequence(&vec![10, 20, 30]);
    assert_eq!(c.poll(&mut w, 0, handle(0)), Status::Pending);
    assert_eq!(w.len(), 1);
    // at 25 the first two are due: the third is armed, the answer is Pending
    assert_eq!(c.poll(&mut w, 25, handle(1)), Status::Pending);
    assert_eq!(w.len(), 3);
    assert_eq!(w.get(2).deadline, 30);
    assert_eq!(w.get(2).handle, handle(1));
    match &c {
        Computation::Sequence { next, .. } => assert_eq!(*next, 2),
        _ => panic!("not a sequence"),
    }
    assert_eq!(c.poll(&mut w, 30, handle(2)), Status::Ready(()));
    assert_eq!(w.len(), 3);
}

#[test]
fn sequence_empty_is_ready() {
    let mut w = Waiters::new();
    let mut c = Computation::sequence(&vec![]);
    assert_eq!(c.poll(&mut w, 0, handle(0)), Status::Ready(()));
    assert_eq!(w.len(), 0);
}

#[test]
fn join_waits_for_all() {
    let mut w = Waiters::new();
    let mut c = Computation::join(&vec![30, 10]);
    assert_eq!(c.poll(&mut w, 15, handle(0)), Status::Pending);
    assert_eq!(w.len(), 2);
    assert_eq!(c.poll(&mut w, 29, handle(1)), Status::Pending);
    assert_eq!(w.get(0).handle, handle(1));
    // the part that completed was dropped and is not polled again
    assert_eq!(w.get(1).handle, handle(0));
    match &c {
        Computation::Join(parts) => assert_eq!(parts[1], None),
        _ => panic!("not a join"),
    }
    assert_eq!(c.poll(&mut w, 30, handle(2)), Status::Ready(()));
    assert_eq!(w.len(), 2);
}

#[test]
fn race_completes_on_first() {
    let mut w = Waiters::new();
    let mut c = Computation::race(&vec![30, 10]);
    assert_eq!(c.poll(&mut w, 5, handle(0)), Status::Pending);
    assert_eq!(w.len(), 2);
    assert_eq!(c.poll(&mut w, 10, handle(1)), Status::Ready(()));
}

#[test]
fn race_stops_at_first_due() {
    let mut w = Waiters::new();
    let mut c = Computation::race(&vec![10, 30]);
    assert_eq!(c.poll(&mut w, 10, handle(0)), Status::Ready(()));
    // the second timer was never polled, so no thread was started for it
    assert_eq!(w.len(), 1);
}

#[test]
fn join_empty_is_ready() {
    let mut w = Waiters::new();
    let mut c = Computation::join(&vec![]);
    assert_eq!(c.poll(&mut w, 0, handle(0)), Status::Ready(()));
}

#[test]
fn race_empty_never_completes() {
    let mut w = Waiters::new();
    let mut c = Computation::race(&vec![]);
    assert_eq!(c.poll(&mut w, u64::MAX, handle(0)), Status::Pending);
}
