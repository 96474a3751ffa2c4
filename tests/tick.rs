use mini_runtime::status::{Status, WakeHandle};
use mini_runtime::tick::TickStream;
use mini_runtime::waiters::Waiters;

fn handle(serial: u64) -> WakeHandle {
    WakeHandle { task: 0, serial }
}

#[test]
fn tick_stream_three_events_then_end() {
    let period = 1000u64;
    let mut w = Waiters::new();
    let mut s = TickStream::new(1000, period, 3);
    let mut ticks: Vec<u64> = Vec::new();
    let mut serial = 0u64;
    let mut now = 0u64;
    while ticks.len() < 3 {
        match s.poll_next(&mut w, now, handle(serial)) {
            Status::Ready(Some(())) => ticks.push(now),
            Status::Ready(None) => panic!("ended early"),
            Status::Pending => {}
        }
        serial += 1;
        now += 250;
    }
    assert_eq!(ticks, vec![1000, 2000, 3000]);
    for pair in ticks.windows(2) {
        assert!(pair[1] - pair[0] >= period);
    }
    assert_eq!(s.rem, 0);
    assert_eq!(s.poll_next(&mut w, now, handle(serial)), Status::Ready(None));
}

#[test]
fn tick_stream_late_poll_keeps_schedule() {
    let mut w = Waiters::new();
    let mut s = TickStream::new(10, 5, 2);
    // polled late: the next deadline is still one period after the last one
    assert_eq!(s.poll_next(&mut w, 13, handle(0)), Status::Ready(Some(())));
    assert_eq!(s.timer.deadline, 15);
    assert_eq!(s.timer.cell, None);
    assert_eq!(s.poll_next(&mut w, 14, handle(1)), Status::Pending);
    assert_eq!(s.poll_next(&mut w, 15, handle(2)), Status::Ready(Some(())));
    assert_eq!(s.poll_next(&mut w, 16, handle(3)), Status::Ready(None));
    assert_eq!(w.len(), 2);
}

#[test]
fn tick_stream_empty() {
    let mut w = Waiters::new();
    let mut s = TickStream::new(10, 5, 0);
    assert_eq!(s.poll_next(&mut w, 0, handle(0)), Status::Ready(None));
    assert_eq!(w.len(), 0);
}
