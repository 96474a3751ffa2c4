use vstd::prelude::*;
use crate::status::{Status, WakeHandle};
use crate::timer::Timer;
use crate::waiters::{extends, WaitCell, Waiters};

verus! {

/// A finite sequence of `rem` unit events, one per `period`, driven by a
/// timer that is replaced after each event.
#[derive(Clone, Copy, Debug, PartialEq, Eq, Structural)]
pub struct TickStream {
    pub rem: usize,
    pub period: u64,
    pub timer: Timer,
}

impl TickStream {
    /// Every deadline the stream will still create fits in a `u64`.
    pub open spec fn wf(self) -> bool {
        self.timer.deadline + self.rem * self.period <= u64::MAX
    }

    /// One `poll_next` at `now` with handle `h`: the stream after it, the
    /// wait cells after it, and the answer.
    pub open spec fn next_model(self, w: Seq<WaitCell>, now: u64, h: WakeHandle) -> (
        TickStream,
        Seq<WaitCell>,
        Status<Option<()>>,
    ) {
        if self.rem == 0 {
            (self, w, Status::Ready(None))
        } else {
            let (t2, w2) = self.timer.armed(w, h);
            if now >= self.timer.deadline {
                (
                    TickStream {
                        rem: (self.rem - 1) as usize,
                        timer: Timer {
                            deadline: (self.timer.deadline + self.period) as u64,
                            cell: None,
                        },
                        ..self
                    },
                    w2,
                    Status::Ready(Some(())),
                )
            } else {
                (TickStream { timer: t2, ..self }, w2, Status::Pending)
            }
        }
    }

    /// A stream of `count` events, the first at `start` and each later one
    /// `period` after the one before.
    pub fn new(start: u64, period: u64, count: usize) -> (r: TickStream)
        requires
            start + count * period <= u64::MAX,
        ensures
            r == (TickStream { rem: count, period, timer: Timer { deadline: start, cell: None } }),
            r.wf(),
    {
        TickStream { rem: count, period, timer: Timer::new(start) }
    }

    /// Polls for the next event at time `now` with wake handle `h`.
    ///
    /// An exhausted stream answers `Ready(None)`. Otherwise the current timer
    /// is polled; when it completes the stream yields `Ready(Some(()))` and
    /// starts a fresh timer one period after the previous deadline.
    pub fn poll_next(&mut self, waiters: &mut Waiters, now: u64, h: WakeHandle) -> (r: Status<
        Option<()>,
    >)
        requires
            old(self).wf(),
            old(self).timer.wf_in(old(waiters)@),
        ensures
            (*final(self), final(waiters)@, r) == old(self).next_model(old(waiters)@, now, h),
            final(self).wf(),
            final(self).timer.wf_in(final(waiters)@),
            extends(old(waiters)@, final(waiters)@),
    {
        if self.rem == 0 {
            return Status::Ready(None);
        }
        let s = self.timer.poll(waiters, now, h);
        if s.is_ready() {
            proof {
                assert(self.timer.deadline + self.period + (self.rem - 1) * self.period
                    == self.timer.deadline + self.rem * self.period) by (nonlinear_arith);
            }
            let when = self.timer.deadline + self.period;
            self.timer = Timer::new(when);
            self.rem = self.rem - 1;
            Status::Ready(Some(()))
        } else {
            Status::Pending
        }
    }
}

} // verus!
