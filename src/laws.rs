use vstd::prelude::*;
use crate::executor::{producers_gone, ExecutorModel, RunStep};
use crate::status::{Status, WakeHandle};
use crate::tick::TickStream;
use crate::timer::Timer;
use crate::waiters::WaitCell;

verus! {

/// Polls a timer once for each `(now, handle)` of `polls`, in order: the
/// timer and wait cells after them, and for each poll whether it answered
/// `Ready`.
pub open spec fn timer_run(t: Timer, w: Seq<WaitCell>, polls: Seq<(u64, WakeHandle)>) -> (
    Timer,
    Seq<WaitCell>,
    Seq<bool>,
)
    decreases polls.len(),
{
    if polls.len() == 0 {
        (t, w, Seq::empty())
    } else {
        let (t1, w1) = t.armed(w, polls[0].1);
        let (t2, w2, rs) = timer_run(t1, w1, polls.drop_first());
        (t2, w2, seq![polls[0].0 >= t.deadline] + rs)
    }
}

/// Whatever the timer's cell, each poll answers `Ready` exactly when its
/// time has reached the deadline.
proof fn lemma_timer_answers(t: Timer, w: Seq<WaitCell>, polls: Seq<(u64, WakeHandle)>)
    ensures
        ({
            let rs = timer_run(t, w, polls).2;
            &&& rs.len() == polls.len()
            &&& forall|i: int| 0 <= i < polls.len() ==> #[trigger] rs[i] == (polls[i].0 >= t.deadline)
        }),
    decreases polls.len(),
{
    if polls.len() > 0 {
        let (t1, w1) = t.armed(w, polls[0].1);
        let rest = polls.drop_first();
        lemma_timer_answers(t1, w1, rest);
        let rs = timer_run(t, w, polls).2;
        let rs1 = timer_run(t1, w1, rest).2;
        assert(rs == seq![polls[0].0 >= t.deadline] + rs1);
        assert forall|i: int| 0 <= i < polls.len() implies #[trigger] rs[i] == (polls[i].0
            >= t.deadline) by {
            if i > 0 {
                assert(rs[i] == rs1[i - 1]);
                assert(rest[i - 1] == polls[i]);
            }
        }
    }
}

proof fn lemma_armed_timer_run(t: Timer, w: Seq<WaitCell>, polls: Seq<(u64, WakeHandle)>)
    requires
        t.wf_in(w),
        t.cell is Some,
        polls.len() > 0,
    ensures
        ({
            let (t2, w2, rs) = timer_run(t, w, polls);
            let c = t.cell.unwrap() as int;
            &&& t2 == t
            &&& w2.len() == w.len()
            &&& w2[c] == (WaitCell { handle: polls.last().1, ..w[c] })
            &&& forall|j: int| 0 <= j < w.len() && j != c ==> #[trigger] w2[j] == w[j]
        }),
    decreases polls.len(),
{
    let (t1, w1) = t.armed(w, polls[0].1);
    let rest = polls.drop_first();
    let (tt, ww, rr) = timer_run(t1, w1, rest);
    assert(timer_run(t, w, polls) == (tt, ww, seq![polls[0].0 >= t.deadline] + rr));
    if rest.len() == 0 {
        assert(timer_run(t1, w1, rest) == (t1, w1, Seq::<bool>::empty()));
        assert(ww =~= w1);
    } else {
        lemma_armed_timer_run(t1, w1, rest);
        assert(rest.last() == polls.last());
    }
}

/// A timer that has not been polled yet starts exactly one waiting thread,
/// however many times it is polled; every poll before the deadline answers
/// `Pending`, every poll from the deadline on answers `Ready`, and the cell
/// of the thread holds the handle of the last poll.
pub proof fn lemma_timer_one_thread(t: Timer, w: Seq<WaitCell>, polls: Seq<(u64, WakeHandle)>)
    requires
        t.cell is None,
        w.len() < usize::MAX,
        polls.len() > 0,
    ensures
        ({
            let (t2, w2, rs) = timer_run(t, w, polls);
            &&& t2 == (Timer { cell: Some(w.len() as usize), ..t })
            &&& w2 == w.push(
                WaitCell { deadline: t.deadline, handle: polls.last().1, fired: false },
            )
            &&& rs.len() == polls.len()
            &&& forall|i: int| 0 <= i < polls.len() ==> #[trigger] rs[i] == (polls[i].0 >= t.deadline)
        }),
{
    lemma_timer_answers(t, w, polls);
    let (t1, w1) = t.armed(w, polls[0].1);
    let rest = polls.drop_first();
    let (t2, w2, rs) = timer_run(t, w, polls);
    let (tt, ww, rr) = timer_run(t1, w1, rest);
    assert(timer_run(t, w, polls) == (tt, ww, seq![polls[0].0 >= t.deadline] + rr));
    if rest.len() == 0 {
        assert(timer_run(t1, w1, rest) == (t1, w1, Seq::<bool>::empty()));
        assert(w2 =~= w.push(
            WaitCell { deadline: t.deadline, handle: polls.last().1, fired: false },
        ));
    } else {
        lemma_armed_timer_run(t1, w1, rest);
        assert(rest.last() == polls.last());
        assert(w2 =~= w.push(
            WaitCell { deadline: t.deadline, handle: polls.last().1, fired: false },
        ));
    }
}

/// Polling a timer with `h1` and then with `h2` leaves `h2` in the cell of
/// its one waiting thread: when that thread fires it schedules the task of
/// `h2`, and not a task that only `h1` is bound to.
pub proof fn lemma_last_poll_wins(m: ExecutorModel, t: Timer, h1: WakeHandle, h2: WakeHandle)
    requires
        t.wf_in(m.cells),
        m.cells.len() < usize::MAX,
        t.cell is Some ==> !m.cells[t.cell.unwrap() as int].fired,
        h2.task < m.tasks.len(),
        m.tasks[h2.task as int].live,
        h1.task != h2.task,
    ensures
        ({
            let (t1, w1) = t.armed(m.cells, h1);
            let (t2, w2) = t1.armed(w1, h2);
            let c = t2.cell.unwrap();
            let (m2, r) = (ExecutorModel { cells: w2, ..m }).fired(c);
            &&& t1.cell is Some
            &&& t2.cell == t1.cell
            &&& w2.len() == w1.len()
            &&& w2[c as int].handle == h2
            &&& r == Some(h2)
            &&& m2.queue == m.queue.push(h2.task)
            &&& m2.queue.last() != h1.task
        }),
{
}

/// Counts the events among the answers of a tick stream.
pub open spec fn ticks_in(rs: Seq<Status<Option<()>>>) -> nat
    decreases rs.len(),
{
    if rs.len() == 0 {
        0
    } else {
        (if rs[0] == Status::Ready(Some(())) { 1nat } else { 0nat }) + ticks_in(rs.drop_first())
    }
}

/// Polls a tick stream once for each `(now, handle)` of `polls`, in order:
/// the stream after them and the answers.
pub open spec fn tick_run(s: TickStream, w: Seq<WaitCell>, polls: Seq<(u64, WakeHandle)>) -> (
    TickStream,
    Seq<Status<Option<()>>>,
)
    decreases polls.len(),
{
    if polls.len() == 0 {
        (s, Seq::empty())
    } else {
        let (s1, w1, r) = s.next_model(w, polls[0].0, polls[0].1);
        let (s2, rs) = tick_run(s1, w1, polls.drop_first());
        (s2, seq![r] + rs)
    }
}

/// A tick stream with `rem` events left yields exactly `rem` events and
/// then only `Ready(None)`. After `k` events, the next one is yielded by
/// the first poll at or after `k` periods past the first deadline, and by
/// no poll before.
pub proof fn lemma_tick_schedule(s: TickStream, w: Seq<WaitCell>, polls: Seq<(u64, WakeHandle)>, i: int)
    requires
        s.wf(),
        0 <= i < polls.len(),
    ensures
        ({
            let rs = tick_run(s, w, polls).1;
            let k = ticks_in(rs.take(i));
            &&& rs.len() == polls.len()
            &&& k <= s.rem
            &&& rs[i] == Status::<Option<()>>::Ready(Some(())) <==> k < s.rem && polls[i].0
                >= s.timer.deadline + k * s.period
            &&& rs[i] == Status::<Option<()>>::Ready(None) <==> k == s.rem
        }),
    decreases i,
{
    let (s1, w1, r0) = s.next_model(w, polls[0].0, polls[0].1);
    let rest = polls.drop_first();
    let rs = tick_run(s, w, polls).1;
    let rs1 = tick_run(s1, w1, rest).1;
    assert(rs == seq![r0] + rs1);
    lemma_tick_run_len(s1, w1, rest);
    if s.rem > 0 && polls[0].0 >= s.timer.deadline {
        assert(s.timer.deadline + s.period + (s.rem - 1) * s.period == s.timer.deadline + s.rem
            * s.period) by (nonlinear_arith);
    }
    assert(s1.wf());
    if i == 0 {
        assert(rs.take(0) =~= Seq::<Status<Option<()>>>::empty());
        assert(ticks_in(rs.take(0)) == 0);
    } else {
        lemma_tick_schedule(s1, w1, rest, i - 1);
        assert(rs.take(i).drop_first() =~= rs1.take(i - 1));
        assert(rs.take(i)[0] == r0);
        assert(rest[i - 1] == polls[i]);
        let k1 = ticks_in(rs1.take(i - 1));
        if r0 == Status::<Option<()>>::Ready(Some(())) {
            assert(s.timer.deadline + s.period + k1 * s.period == s.timer.deadline + (k1 + 1)
                * s.period) by (nonlinear_arith);
        }
    }
}

proof fn lemma_tick_run_len(s: TickStream, w: Seq<WaitCell>, polls: Seq<(u64, WakeHandle)>)
    ensures
        tick_run(s, w, polls).1.len() == polls.len(),
    decreases polls.len(),
{
    if polls.len() > 0 {
        let (s1, w1, r) = s.next_model(w, polls[0].0, polls[0].1);
        lemma_tick_run_len(s1, w1, polls.drop_first());
    }
}

/// Once the ready queue is empty and every producer handle is gone, the run
/// loop ends, and nothing can schedule a task again: no invocation of a
/// wake handle and no waiting thread that fires.
pub proof fn lemma_finished_is_final(m: ExecutorModel, now: u64, h: WakeHandle, cell: usize)
    requires
        m.queue.len() == 0,
        producers_gone(m),
        cell < m.cells.len(),
    ensures
        m.stepped(now) == (m, RunStep::Finished),
        m.ran(now) == (m, RunStep::Finished),
        m.woken(h) == m,
        m.fired(cell).0.queue.len() == 0,
        producers_gone(m.fired(cell).0),
{
}

} // verus!
