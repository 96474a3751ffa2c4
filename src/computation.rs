use vstd::prelude::*;
use crate::status::{Status, WakeHandle};
use crate::tick::TickStream;
use crate::timer::Timer;
use crate::waiters::{extends, WaitCell, Waiters};

verus! {

/// Every timer of `ts` is well formed against the cells `w`.
pub open spec fn all_wf(ts: Seq<Timer>, w: Seq<WaitCell>) -> bool {
    forall|j: int| 0 <= j < ts.len() ==> #[trigger] ts[j].wf_in(w)
}

/// Polls the timers `lo .. hi` of `ts` in order, all with the handle `h`.
pub open spec fn poll_range(ts: Seq<Timer>, w: Seq<WaitCell>, h: WakeHandle, lo: int, hi: int) -> (
    Seq<Timer>,
    Seq<WaitCell>,
)
    decreases hi - lo,
{
    if hi <= lo {
        (ts, w)
    } else {
        let (ts1, w1) = poll_range(ts, w, h, lo, hi - 1);
        let (t, w2) = ts1[hi - 1].armed(w1, h);
        (ts1.update(hi - 1, t), w2)
    }
}

/// The index of the first timer from `from` on whose deadline is still ahead
/// of `now`, or the length when there is none.
pub open spec fn first_pending(ts: Seq<Timer>, from: int, now: u64) -> int
    decreases ts.len() - from,
{
    if from >= ts.len() {
        ts.len() as int
    } else if ts[from].deadline > now {
        from
    } else {
        first_pending(ts, from + 1, now)
    }
}

/// The index of the first timer from `from` on that has reached its
/// deadline at `now`, or the length when there is none.
pub open spec fn first_due(ts: Seq<Timer>, from: int, now: u64) -> int
    decreases ts.len() - from,
{
    if from >= ts.len() {
        ts.len() as int
    } else if ts[from].deadline <= now {
        from
    } else {
        first_due(ts, from + 1, now)
    }
}

/// The parts of a join that have not completed are well formed against `w`.
pub open spec fn parts_wf(ps: Seq<Option<Timer>>, w: Seq<WaitCell>) -> bool {
    forall|j: int| 0 <= j < ps.len() && (#[trigger] ps[j]) is Some ==> ps[j].unwrap().wf_in(w)
}

/// Polls the parts `0 .. hi` of a join that have not completed, in order,
/// all with the handle `h`; a part that completes is dropped.
pub open spec fn poll_parts(
    ps: Seq<Option<Timer>>,
    w: Seq<WaitCell>,
    h: WakeHandle,
    now: u64,
    hi: int,
) -> (Seq<Option<Timer>>, Seq<WaitCell>)
    decreases hi,
{
    if hi <= 0 {
        (ps, w)
    } else {
        let (ps1, w1) = poll_parts(ps, w, h, now, hi - 1);
        match ps1[hi - 1] {
            None => (ps1, w1),
            Some(t) => {
                let (t2, w2) = t.armed(w1, h);
                (ps1.update(hi - 1, if now >= t.deadline { None } else { Some(t2) }), w2)
            },
        }
    }
}

/// Every part of a join has completed before or reaches its deadline at `now`.
pub open spec fn join_due(ps: Seq<Option<Timer>>, now: u64) -> bool {
    forall|j: int| 0 <= j < ps.len() && (#[trigger] ps[j]) is Some ==> ps[j].unwrap().deadline <= now
}

/// Polls a tick stream at `now` with `h` for as long as it yields events:
/// the stream and wait cells after that, and whether the stream ended.
pub open spec fn drain(s: TickStream, w: Seq<WaitCell>, now: u64, h: WakeHandle) -> (
    TickStream,
    Seq<WaitCell>,
    bool,
)
    decreases s.rem,
{
    let (s1, w1, r) = s.next_model(w, now, h);
    match r {
        Status::Ready(None) => (s1, w1, true),
        Status::Pending => (s1, w1, false),
        Status::Ready(Some(_)) => if s1.rem < s.rem {
            drain(s1, w1, now, h)
        } else {
            (s1, w1, false)
        },
    }
}

/// Unpolled timers, one for each deadline.
pub open spec fn unarmed(deadlines: Seq<u64>) -> Seq<Timer> {
    deadlines.map_values(|d: u64| Timer { deadline: d, cell: None })
}

/// The mathematical value of a computation.
pub enum ComputationModel {
    Delay(Timer),
    Sequence { steps: Seq<Timer>, next: int },
    Join(Seq<Option<Timer>>),
    Race(Seq<Timer>),
    Ticks(TickStream),
}

/// A possibly unfinished unit of work, built from timers.
pub enum Computation {
    /// Completes when its timer does.
    Delay(Timer),
    /// Waits for its timers one after another; `next` is the first that has
    /// not completed.
    Sequence { steps: Vec<Timer>, next: usize },
    /// Completes when every timer has; a timer that completed is dropped
    /// and not polled again.
    Join(Vec<Option<Timer>>),
    /// Completes when the first timer does, polled in order; the others are
    /// dropped with it.
    Race(Vec<Timer>),
    /// Takes every event of a tick stream; completes when the stream ends.
    Ticks(TickStream),
}

impl View for Computation {
    type V = ComputationModel;

    open spec fn view(&self) -> ComputationModel {
        match self {
            Computation::Delay(t) => ComputationModel::Delay(*t),
            Computation::Sequence { steps, next } => ComputationModel::Sequence {
                steps: steps@,
                next: *next as int,
            },
            Computation::Join(parts) => ComputationModel::Join(parts@),
            Computation::Race(parts) => ComputationModel::Race(parts@),
            Computation::Ticks(ts) => ComputationModel::Ticks(*ts),
        }
    }
}

impl ComputationModel {
    /// No timer has been polled yet, so the computation fits any wait cells.
    pub open spec fn fresh(self) -> bool {
        forall|w: Seq<WaitCell>| #[trigger] self.wf_in(w)
    }

    pub open spec fn wf_in(self, w: Seq<WaitCell>) -> bool {
        match self {
            ComputationModel::Delay(t) => t.wf_in(w),
            ComputationModel::Sequence { steps, next } => 0 <= next <= steps.len() && all_wf(
                steps,
                w,
            ),
            ComputationModel::Join(parts) => parts_wf(parts, w),
            ComputationModel::Race(parts) => all_wf(parts, w),
            ComputationModel::Ticks(ts) => ts.wf() && ts.timer.wf_in(w),
        }
    }

    /// One poll at `now` with handle `h`: the computation after it, the wait
    /// cells after it, and whether it answered `Ready`.
    pub open spec fn polled(self, w: Seq<WaitCell>, now: u64, h: WakeHandle) -> (
        ComputationModel,
        Seq<WaitCell>,
        bool,
    ) {
        match self {
            ComputationModel::Delay(t) => {
                let (t2, w2) = t.armed(w, h);
                (ComputationModel::Delay(t2), w2, now >= t.deadline)
            },
            ComputationModel::Sequence { steps, next } => {
                let stop = first_pending(steps, next, now);
                let hi = if stop < steps.len() { stop + 1 } else { stop };
                let (s2, w2) = poll_range(steps, w, h, next, hi);
                (ComputationModel::Sequence { steps: s2, next: stop }, w2, stop == steps.len())
            },
            ComputationModel::Join(parts) => {
                let (p2, w2) = poll_parts(parts, w, h, now, parts.len() as int);
                (ComputationModel::Join(p2), w2, join_due(parts, now))
            },
            ComputationModel::Race(parts) => {
                let first = first_due(parts, 0, now);
                let hi = if first < parts.len() { first + 1 } else { first };
                let (p2, w2) = poll_range(parts, w, h, 0, hi);
                (ComputationModel::Race(p2), w2, first < parts.len())
            },
            ComputationModel::Ticks(ts) => {
                let (t2, w2, done) = drain(ts, w, now, h);
                (ComputationModel::Ticks(t2), w2, done)
            },
        }
    }
}

/// Polls every part of a join that has not completed with `h`, dropping
/// those that complete; answers whether all parts have completed.
fn poll_join(parts: &mut Vec<Option<Timer>>, waiters: &mut Waiters, now: u64, h: WakeHandle) -> (r:
    bool)
    requires
        parts_wf(old(parts)@, old(waiters)@),
    ensures
        (final(parts)@, final(waiters)@) == poll_parts(
            old(parts)@,
            old(waiters)@,
            h,
            now,
            old(parts)@.len() as int,
        ),
        r == join_due(old(parts)@, now),
        parts_wf(final(parts)@, final(waiters)@),
        extends(old(waiters)@, final(waiters)@),
{
    let ghost ps0 = parts@;
    let ghost w0 = waiters@;
    let mut all: bool = true;
    let mut i: usize = 0;
    while i < parts.len()
        invariant
            0 <= i <= parts@.len(),
            parts@.len() == ps0.len(),
            forall|j: int| i <= j < ps0.len() ==> #[trigger] parts@[j] == ps0[j],
            (parts@, waiters@) == poll_parts(ps0, w0, h, now, i as int),
            parts_wf(parts@, waiters@),
            extends(w0, waiters@),
            all == (forall|j: int|
                0 <= j < i && (#[trigger] ps0[j]) is Some ==> ps0[j].unwrap().deadline <= now),
        decreases parts@.len() - i,
    {
        let ghost w1 = waiters@;
        let ghost p1 = parts@;
        match parts[i] {
            None => {},
            Some(t0) => {
                let mut t = t0;
                let s = t.poll(waiters, now, h);
                if s.is_ready() {
                    parts.set(i, None);
                } else {
                    parts.set(i, Some(t));
                    all = false;
                }
                proof {
                    assert forall|j: int| 0 <= j < parts@.len() && (#[trigger] parts@[j]) is Some
                        implies parts@[j].unwrap().wf_in(waiters@) by {
                        if j != i {
                            assert(p1[j].unwrap().wf_in(w1));
                        }
                    }
                    crate::waiters::lemma_extends_trans(w0, w1, waiters@);
                }
            },
        }
        i = i + 1;
    }
    proof {
        assert(join_due(ps0, now) == all);
    }
    all
}

/// Polls the timers of a race in order with `h` until one has reached its
/// deadline; answers whether one has.
fn poll_race(parts: &mut Vec<Timer>, waiters: &mut Waiters, now: u64, h: WakeHandle) -> (r: bool)
    requires
        all_wf(old(parts)@, old(waiters)@),
    ensures
        r == (first_due(old(parts)@, 0, now) < old(parts)@.len()),
        first_due(old(parts)@, 0, now) <= old(parts)@.len(),
        (final(parts)@, final(waiters)@) == poll_range(
            old(parts)@,
            old(waiters)@,
            h,
            0,
            if r { first_due(old(parts)@, 0, now) + 1 } else { old(parts)@.len() as int },
        ),
        all_wf(final(parts)@, final(waiters)@),
        extends(old(waiters)@, final(waiters)@),
{
    let ghost ts0 = parts@;
    let ghost w0 = waiters@;
    let mut won: bool = false;
    let mut i: usize = 0;
    while !won && i < parts.len()
        invariant
            0 <= i <= parts@.len(),
            parts@.len() == ts0.len(),
            forall|j: int| 0 <= j < ts0.len() ==> (#[trigger] parts@[j]).deadline == ts0[j].deadline,
            forall|j: int| i <= j < ts0.len() ==> #[trigger] parts@[j] == ts0[j],
            !won ==> first_due(ts0, 0, now) == first_due(ts0, i as int, now),
            !won ==> (parts@, waiters@) == poll_range(ts0, w0, h, 0, i as int),
            won ==> 0 < i && first_due(ts0, 0, now) == i - 1 && (parts@, waiters@) == poll_range(
                ts0,
                w0,
                h,
                0,
                i as int,
            ),
            all_wf(parts@, waiters@),
            extends(w0, waiters@),
        decreases parts@.len() - i + (if won { 0int } else { 1int }),
    {
        let ghost w1 = waiters@;
        let ghost p1 = parts@;
        let mut t = parts[i];
        let s = t.poll(waiters, now, h);
        parts.set(i, t);
        proof {
            assert forall|j: int| 0 <= j < parts@.len() implies #[trigger] parts@[j].wf_in(
                waiters@,
            ) by {
                if j != i {
                    assert(p1[j].wf_in(w1));
                }
            }
            crate::waiters::lemma_extends_trans(w0, w1, waiters@);
        }
        if s.is_ready() {
            won = true;
        }
        i = i + 1;
    }
    assert(won || first_due(ts0, i as int, now) == ts0.len());
    won
}

/// Polls the timers of a sequence from `next` on, moving past each one that
/// has reached its deadline and stopping at the first that has not.
fn poll_sequence(
    steps: &mut Vec<Timer>,
    next: &mut usize,
    waiters: &mut Waiters,
    now: u64,
    h: WakeHandle,
) -> (r: bool)
    requires
        *old(next) <= old(steps)@.len(),
        all_wf(old(steps)@, old(waiters)@),
    ensures
        *final(next) == first_pending(old(steps)@, *old(next) as int, now),
        r == (*final(next) == old(steps)@.len()),
        *final(next) <= final(steps)@.len() == old(steps)@.len(),
        (final(steps)@, final(waiters)@) == poll_range(
            old(steps)@,
            old(waiters)@,
            h,
            *old(next) as int,
            if *final(next) < old(steps)@.len() { *final(next) + 1 } else { *final(next) as int },
        ),
        all_wf(final(steps)@, final(waiters)@),
        extends(old(waiters)@, final(waiters)@),
{
    let ghost ts0 = steps@;
    let ghost w0 = waiters@;
    let ghost n0 = *next as int;
    let mut stalled: bool = false;
    while !stalled && *next < steps.len()
        invariant
            n0 <= *next <= steps@.len(),
            steps@.len() == ts0.len(),
            forall|j: int| 0 <= j < ts0.len() ==> (#[trigger] steps@[j]).deadline == ts0[j].deadline,
            forall|j: int| *next < j < ts0.len() ==> #[trigger] steps@[j] == ts0[j],
            !stalled ==> *next < ts0.len() ==> steps@[*next as int] == ts0[*next as int],
            first_pending(ts0, n0, now) == first_pending(ts0, *next as int, now),
            !stalled ==> (steps@, waiters@) == poll_range(ts0, w0, h, n0, *next as int),
            stalled ==> *next < ts0.len() && (steps@, waiters@) == poll_range(
                ts0,
                w0,
                h,
                n0,
                *next + 1,
            ) && first_pending(ts0, *next as int, now) == *next,
            all_wf(steps@, waiters@),
            extends(w0, waiters@),
        decreases steps@.len() - *next + (if stalled { 0int } else { 1int }),
    {
        let i = *next;
        let ghost w1 = waiters@;
        let ghost p1 = steps@;
        let mut t = steps[i];
        let s = t.poll(waiters, now, h);
        steps.set(i, t);
        proof {
            assert forall|j: int| 0 <= j < steps@.len() implies #[trigger] steps@[j].wf_in(
                waiters@,
            ) by {
                if j != i {
                    assert(p1[j].wf_in(w1));
                }
            }
            crate::waiters::lemma_extends_trans(w0, w1, waiters@);
        }
        if s.is_pending() {
            stalled = true;
        } else {
            *next = i + 1;
        }
    }
    !stalled
}

fn timers(deadlines: &Vec<u64>) -> (r: Vec<Timer>)
    ensures
        r@ == unarmed(deadlines@),
        forall|w: Seq<WaitCell>| #[trigger] all_wf(r@, w),
{
    let mut r: Vec<Timer> = Vec::new();
    let mut i: usize = 0;
    while i < deadlines.len()
        invariant
            0 <= i <= deadlines@.len(),
            r@ == unarmed(deadlines@.take(i as int)),
        decreases deadlines@.len() - i,
    {
        r.push(Timer::new(deadlines[i]));
        assert(deadlines@.take(i + 1) =~= deadlines@.take(i as int).push(deadlines@[i as int]));
        assert(r@ =~= unarmed(deadlines@.take(i + 1)));
        i = i + 1;
    }
    assert(deadlines@.take(i as int) =~= deadlines@);
    r
}

/// Takes events from a tick stream at `now` until it ends or answers
/// `Pending`; answers whether it ended.
fn drain_ticks(ts: &mut TickStream, waiters: &mut Waiters, now: u64, h: WakeHandle) -> (r: bool)
    requires
        old(ts).wf(),
        old(ts).timer.wf_in(old(waiters)@),
    ensures
        (*final(ts), final(waiters)@, r) == drain(*old(ts), old(waiters)@, now, h),
        final(ts).wf(),
        final(ts).timer.wf_in(final(waiters)@),
        extends(old(waiters)@, final(waiters)@),
{
    let ghost s0 = *ts;
    let ghost w0 = waiters@;
    loop
        invariant
            s0 == *old(ts),
            w0 == old(waiters)@,
            ts.wf(),
            ts.timer.wf_in(waiters@),
            extends(w0, waiters@),
            drain(*ts, waiters@, now, h) == drain(s0, w0, now, h),
        decreases ts.rem,
    {
        let ghost sb = *ts;
        let ghost wb = waiters@;
        let r = ts.poll_next(waiters, now, h);
        proof {
            crate::waiters::lemma_extends_trans(w0, wb, waiters@);
            assert(drain(sb, wb, now, h) == drain(s0, w0, now, h));
        }
        match r {
            Status::Ready(None) => {
                return true;
            },
            Status::Pending => {
                return false;
            },
            Status::Ready(Some(_)) => {},
        }
    }
}

impl Computation {
    pub fn delay(deadline: u64) -> (r: Computation)
        ensures
            r@ == ComputationModel::Delay(Timer { deadline, cell: None }),
            r@.fresh(),
    {
        Computation::Delay(Timer::new(deadline))
    }

    /// A computation that takes `count` events, the first at `start` and
    /// each later one `period` after the one before.
    pub fn ticks(start: u64, period: u64, count: usize) -> (r: Computation)
        requires
            start + count * period <= u64::MAX,
        ensures
            r@ == ComputationModel::Ticks(
                TickStream { rem: count, period, timer: Timer { deadline: start, cell: None } },
            ),
            r@.fresh(),
    {
        Computation::Ticks(TickStream::new(start, period, count))
    }

    pub fn sequence(deadlines: &Vec<u64>) -> (r: Computation)
        ensures
            r@ == (ComputationModel::Sequence { steps: unarmed(deadlines@), next: 0 }),
            r@.fresh(),
    {
        let steps = timers(deadlines);
        Computation::Sequence { steps, next: 0 }
    }

    pub fn join(deadlines: &Vec<u64>) -> (r: Computation)
        ensures
            r@ == ComputationModel::Join(unarmed(deadlines@).map_values(|t: Timer| Some(t))),
            r@.fresh(),
    {
        let ts = timers(deadlines);
        let mut parts: Vec<Option<Timer>> = Vec::new();
        let mut i: usize = 0;
        while i < ts.len()
            invariant
                0 <= i <= ts@.len(),
                ts@ == unarmed(deadlines@),
                parts@ == ts@.take(i as int).map_values(|t: Timer| Some(t)),
            decreases ts@.len() - i,
        {
            parts.push(Some(ts[i]));
            assert(ts@.take(i + 1) =~= ts@.take(i as int).push(ts@[i as int]));
            assert(parts@ =~= ts@.take(i + 1).map_values(|t: Timer| Some(t)));
            i = i + 1;
        }
        assert(ts@.take(i as int) =~= ts@);
        Computation::Join(parts)
    }

    pub fn race(deadlines: &Vec<u64>) -> (r: Computation)
        ensures
            r@ == ComputationModel::Race(unarmed(deadlines@)),
            r@.fresh(),
    {
        Computation::Race(timers(deadlines))
    }

    /// Polls the computation at time `now` with wake handle `h`; every timer
    /// that the poll reaches keeps `h` as the handle its waiting thread will
    /// invoke.
    pub fn poll(&mut self, waiters: &mut Waiters, now: u64, h: WakeHandle) -> (r: Status<()>)
        requires
            old(self)@.wf_in(old(waiters)@),
        ensures
            (final(self)@, final(waiters)@, r is Ready) == old(self)@.polled(old(waiters)@, now, h),
            final(self)@.wf_in(final(waiters)@),
            extends(old(waiters)@, final(waiters)@),
    {
        match self {
            Computation::Delay(t) => t.poll(waiters, now, h),
            Computation::Sequence { steps, next } => {
                if poll_sequence(steps, next, waiters, now, h) {
                    Status::Ready(())
                } else {
                    Status::Pending
                }
            },
            Computation::Join(parts) => {
                if poll_join(parts, waiters, now, h) {
                    Status::Ready(())
                } else {
                    Status::Pending
                }
            },
            Computation::Ticks(ts) => {
                if drain_ticks(ts, waiters, now, h) {
                    Status::Ready(())
                } else {
                    Status::Pending
                }
            },
            Computation::Race(parts) => {
                if poll_race(parts, waiters, now, h) {
                    Status::Ready(())
                } else {
                    Status::Pending
                }
            },
        }
    }
}

} // verus!
