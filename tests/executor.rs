use mini_runtime::computation::Computation;
use mini_runtime::executor::{Executor, RunStep};
use mini_runtime::status::WakeHandle;

#[test]
fn end_to_end_single_delay_polled_twice() {
    let mut ex = Executor::new();
    assert_eq!(ex.spawn(Computation::delay(10_000)), Some(0));
    assert_eq!(ex.run_ready(0), RunStep::Idle);
    assert_eq!(ex.polls_of(0), 1);
    assert_eq!(ex.take_waiters(), vec![(0, 10_000)]);
    assert_eq!(ex.take_waiters(), vec![]);
    ex.close();
    assert_eq!(ex.fire(0), Some(WakeHandle { task: 0, serial: 0 }));
    assert_eq!(ex.queue_len(), 1);
    assert_eq!(ex.run_ready(10_000), RunStep::Finished);
    assert_eq!(ex.polls_of(0), 2);
    assert!(!ex.is_live(0));
}

#[test]
fn run_does_not_finish_while_submission_handle_held() {
    let mut ex = Executor::new();
    assert_eq!(ex.run_ready(0), RunStep::Idle);
    ex.close();
    assert_eq!(ex.run_ready(0), RunStep::Finished);
}

#[test]
fn run_does_not_finish_while_task_live() {
    let mut ex = Executor::new();
    ex.spawn(Computation::delay(50));
    ex.close();
    assert_eq!(ex.run_ready(0), RunStep::Idle);
    assert!(ex.is_live(0));
    assert_eq!(ex.fire(0), Some(WakeHandle { task: 0, serial: 0 }));
    assert_eq!(ex.run_ready(50), RunStep::Finished);
}

#[test]
fn spawn_after_close_is_refused() {
    let mut ex = Executor::new();
    ex.close();
    assert_eq!(ex.spawn(Computation::delay(1)), None);
    assert_eq!(ex.task_count(), 0);
}

#[test]
fn step_answers_each_turn() {
    let mut ex = Executor::new();
    ex.spawn(Computation::delay(5));
    ex.spawn(Computation::delay(0));
    assert_eq!(ex.step(1), RunStep::Polled { task: 0, ready: false });
    assert_eq!(ex.step(1), RunStep::Polled { task: 1, ready: true });
    assert_eq!(ex.step(1), RunStep::Idle);
    assert_eq!(ex.serial(), 2);
}

#[test]
fn spurious_wake_repolls_harmlessly() {
    let mut ex = Executor::new();
    ex.spawn(Computation::delay(100));
    ex.close();
    assert_eq!(ex.run_ready(0), RunStep::Idle);
    ex.wake(WakeHandle { task: 0, serial: 0 });
    ex.wake(WakeHandle { task: 0, serial: 0 });
    assert_eq!(ex.queue_len(), 2);
    assert_eq!(ex.run_ready(10), RunStep::Idle);
    assert_eq!(ex.polls_of(0), 3);
    // the cell keeps the handle of the latest poll
    assert_eq!(ex.waiter(0).handle, WakeHandle { task: 0, serial: 2 });
    assert_eq!(ex.take_waiters().len(), 1);
}

#[test]
fn wake_of_completed_task_is_noop() {
    let mut ex = Executor::new();
    ex.spawn(Computation::delay(0));
    ex.close();
    assert_eq!(ex.run_ready(0), RunStep::Finished);
    ex.wake(WakeHandle { task: 0, serial: 0 });
    assert_eq!(ex.queue_len(), 0);
    // its waiting thread fires into a loop that has ended
    assert_eq!(ex.fire(0), Some(WakeHandle { task: 0, serial: 0 }));
    assert_eq!(ex.queue_len(), 0);
    assert_eq!(ex.fire(0), None);
    assert_eq!(ex.run_ready(0), RunStep::Finished);
}

#[test]
fn completed_task_in_queue_is_skipped() {
    let mut ex = Executor::new();
    ex.spawn(Computation::delay(10));
    assert_eq!(ex.step(0), RunStep::Polled { task: 0, ready: false });
    ex.wake(WakeHandle { task: 0, serial: 0 });
    ex.wake(WakeHandle { task: 0, serial: 0 });
    assert_eq!(ex.step(10), RunStep::Polled { task: 0, ready: true });
    assert_eq!(ex.step(10), RunStep::Skipped(0));
    assert_eq!(ex.polls_of(0), 2);
}

#[test]
fn stale_handle_does_not_wake_new_owner() {
    let mut ex = Executor::new();
    ex.spawn(Computation::sequence(&vec![10, 20]));
    ex.spawn(Computation::delay(30));
    ex.close();
    assert_eq!(ex.run_ready(0), RunStep::Idle);
    assert_eq!(ex.take_waiters(), vec![(0, 10), (1, 30)]);
    assert_eq!(ex.fire(1), Some(WakeHandle { task: 1, serial: 1 }));
    assert_eq!(ex.run_ready(5), RunStep::Idle);
    assert_eq!(ex.fire(0), Some(WakeHandle { task: 0, serial: 0 }));
    assert_eq!(ex.run_ready(10), RunStep::Idle);
    assert_eq!(ex.take_waiters(), vec![(2, 20)]);
    assert_eq!(ex.waiter(2).handle, WakeHandle { task: 0, serial: 3 });
    assert_eq!(ex.fire(2), Some(WakeHandle { task: 0, serial: 3 }));
    assert_eq!(ex.run_ready(20), RunStep::Idle);
    assert!(!ex.is_live(0));
    assert!(ex.is_live(1));
}

#[test]
fn tick_task_takes_every_event() {
    let mut ex = Executor::new();
    ex.spawn(Computation::ticks(10, 10, 3));
    ex.close();
    assert_eq!(ex.run_ready(0), RunStep::Idle);
    assert_eq!(ex.take_waiters(), vec![(0, 10)]);
    ex.fire(0);
    assert_eq!(ex.run_ready(10), RunStep::Idle);
    assert_eq!(ex.take_waiters(), vec![(1, 20)]);
    ex.fire(1);
    // a late wake takes the two events that are due and the end of the stream
    assert_eq!(ex.run_ready(35), RunStep::Finished);
    assert_eq!(ex.polls_of(0), 3);
    // the third timer was armed by its first poll although it was already due
    assert_eq!(ex.take_waiters(), vec![(2, 30)]);
}
