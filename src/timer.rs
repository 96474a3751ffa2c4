use vstd::prelude::*;
use crate::status::{Status, WakeHandle};
use crate::waiters::{extends, WaitCell, Waiters};

verus! {

/// A computation that completes once its deadline has passed.
///
/// `cell` is `None` until the first poll, which starts the one waiting
/// thread of this timer; afterwards it names that thread's cell.
#[derive(Clone, Copy, Debug, PartialEq, Eq, Structural)]
pub struct Timer {
    pub deadline: u64,
    pub cell: Option<usize>,
}

impl Timer {
    /// The timer's cell, if armed, exists and waits for the timer's deadline.
    pub open spec fn wf_in(self, w: Seq<WaitCell>) -> bool {
        match self.cell {
            Some(c) => c < w.len() && w[c as int].deadline == self.deadline,
            None => true,
        }
    }

    /// What one poll with `h` does to the timer and to the wait cells.
    pub open spec fn armed(self, w: Seq<WaitCell>, h: WakeHandle) -> (Timer, Seq<WaitCell>) {
        match self.cell {
            None => (
                Timer { cell: Some(w.len() as usize), ..self },
                w.push(WaitCell { deadline: self.deadline, handle: h, fired: false }),
            ),
            Some(c) => (self, w.update(c as int, WaitCell { handle: h, ..w[c as int] })),
        }
    }

    pub fn new(deadline: u64) -> (r: Timer)
        ensures
            r == (Timer { deadline, cell: None }),
    {
        Timer { deadline, cell: None }
    }

    /// Polls the timer at time `now` with wake handle `h`.
    ///
    /// The first poll starts the waiting thread with `h`; later polls make
    /// the stored handle `h` if it was another. The answer depends on the
    /// clock alone: `Ready` once `now` has reached the deadline.
    pub fn poll(&mut self, waiters: &mut Waiters, now: u64, h: WakeHandle) -> (r: Status<()>)
        requires
            old(self).wf_in(old(waiters)@),
        ensures
            r == (if now >= old(self).deadline { Status::Ready(()) } else { Status::Pending }),
            (*final(self), final(waiters)@) == old(self).armed(old(waiters)@, h),
            final(self).wf_in(final(waiters)@),
            extends(old(waiters)@, final(waiters)@),
    {
        match self.cell {
            Some(c) => {
                waiters.refresh(c, h);
            },
            None => {
                let c = waiters.arm(self.deadline, h);
                self.cell = Some(c);
            },
        }
        if now >= self.deadline {
            Status::Ready(())
        } else {
            Status::Pending
        }
    }
}

/// How long a waiting thread that wakes at `now` still sleeps before it may
/// invoke its handle.
pub fn sleep_for(now: u64, deadline: u64) -> (r: u64)
    ensures
        r == (if now < deadline { deadline - now } else { 0 }),
{
    if now < deadline {
        deadline - now
    } else {
        0
    }
}

} // verus!
