use vstd::prelude::*;
use std::collections::VecDeque;
use crate::computation::{Computation, ComputationModel};
use crate::status::WakeHandle;
use crate::waiters::{extends, WaitCell, Waiters};

verus! {

/// One submitted computation with its scheduling record.
pub struct Task {
    pub comp: Computation,
    /// False once the computation completed: the task is then dropped.
    pub live: bool,
    pub polls: u64,
}

pub struct TaskModel {
    pub comp: ComputationModel,
    pub live: bool,
    pub polls: u64,
}

impl View for Task {
    type V = TaskModel;

    open spec fn view(&self) -> TaskModel {
        TaskModel { comp: self.comp@, live: self.live, polls: self.polls }
    }
}

/// What one turn of the run loop did.
#[derive(Clone, Copy, Debug, PartialEq, Eq, Structural)]
pub enum RunStep {
    /// The task was taken from the ready queue and polled.
    Polled { task: usize, ready: bool },
    /// The task was taken from the ready queue but had already completed.
    Skipped(usize),
    /// The ready queue is empty, but a producer handle remains: the loop
    /// waits for the next wake.
    Idle,
    /// The ready queue is empty and no producer handle remains: the loop ends.
    Finished,
}

/// The mathematical value of an executor.
pub struct ExecutorModel {
    pub tasks: Seq<TaskModel>,
    pub queue: Seq<usize>,
    pub cells: Seq<WaitCell>,
    /// The submission handle is still held.
    pub open: bool,
    /// Serial of the next wake handle.
    pub serial: u64,
    /// Wait cells `0 .. started` have been handed out to be started.
    pub started: nat,
}

/// Every producer handle is gone: the submission handle was dropped and
/// every task has completed.
pub open spec fn producers_gone(m: ExecutorModel) -> bool {
    !m.open && forall|i: int| 0 <= i < m.tasks.len() ==> !(#[trigger] m.tasks[i]).live
}

/// A computation well formed against some wait cells stays so as cells are
/// added or their handles and flags change.
pub proof fn lemma_wf_mono(c: ComputationModel, w: Seq<WaitCell>, w2: Seq<WaitCell>)
    requires
        c.wf_in(w),
        extends(w, w2),
    ensures
        c.wf_in(w2),
{
    match c {
        ComputationModel::Delay(t) => {},
        ComputationModel::Sequence { steps, next } => {
            assert forall|j: int| 0 <= j < steps.len() implies #[trigger] steps[j].wf_in(w2) by {
                assert(steps[j].wf_in(w));
            }
        },
        ComputationModel::Join(parts) => {
            assert forall|j: int| 0 <= j < parts.len() && (#[trigger] parts[j]) is Some implies parts[j].unwrap().wf_in(w2) by {
                assert(parts[j].unwrap().wf_in(w));
            }
        },
        ComputationModel::Ticks(ts) => {},
        ComputationModel::Race(parts) => {
            assert forall|j: int| 0 <= j < parts.len() implies #[trigger] parts[j].wf_in(w2) by {
                assert(parts[j].wf_in(w));
            }
        },
    }
}

impl ExecutorModel {
    pub open spec fn wf(self) -> bool {
        &&& forall|k: int| 0 <= k < self.queue.len() ==> #[trigger] self.queue[k] < self.tasks.len()
        &&& forall|i: int|
            0 <= i < self.tasks.len() ==> (#[trigger] self.tasks[i]).comp.wf_in(self.cells)
        &&& forall|i: int| 0 <= i < self.tasks.len() ==> (#[trigger] self.tasks[i]).polls <= self.serial
        &&& self.started <= self.cells.len()
    }

    /// One turn of the run loop at time `now`: the executor after it and
    /// what the turn did.
    pub open spec fn stepped(self, now: u64) -> (ExecutorModel, RunStep) {
        if self.queue.len() == 0 {
            (self, if producers_gone(self) { RunStep::Finished } else { RunStep::Idle })
        } else {
            let id = self.queue[0];
            let t = self.tasks[id as int];
            let rest = ExecutorModel { queue: self.queue.drop_first(), ..self };
            if !t.live {
                (rest, RunStep::Skipped(id))
            } else {
                let h = WakeHandle { task: id, serial: self.serial };
                let (c2, w2, ready) = t.comp.polled(self.cells, now, h);
                (
                    ExecutorModel {
                        tasks: self.tasks.update(
                            id as int,
                            TaskModel { comp: c2, live: !ready, polls: (t.polls + 1) as u64 },
                        ),
                        cells: w2,
                        serial: (self.serial + 1) as u64,
                        ..rest
                    },
                    RunStep::Polled { task: id, ready },
                )
            }
        }
    }

    /// Turns of the run loop at time `now` until the ready queue is empty:
    /// the executor after them and the last turn, `Idle` or `Finished`.
    pub open spec fn ran(self, now: u64) -> (ExecutorModel, RunStep)
        decreases self.queue.len(),
    {
        if self.queue.len() == 0 {
            self.stepped(now)
        } else {
            self.stepped(now).0.ran(now)
        }
    }

    /// The waiting thread of `cell` invokes its stored handle, once: the
    /// executor after it and the handle invoked.
    pub open spec fn fired(self, cell: usize) -> (ExecutorModel, Option<WakeHandle>) {
        let c = self.cells[cell as int];
        if c.fired {
            (self, None)
        } else {
            (
                ExecutorModel {
                    cells: self.cells.update(cell as int, WaitCell { fired: true, ..c }),
                    ..self
                }.woken(c.handle),
                Some(c.handle),
            )
        }
    }

    /// Schedules the task that `h` is bound to, unless it has completed.
    pub open spec fn woken(self, h: WakeHandle) -> ExecutorModel {
        if h.task < self.tasks.len() && self.tasks[h.task as int].live {
            ExecutorModel { queue: self.queue.push(h.task), ..self }
        } else {
            self
        }
    }
}

/// A single-consumer cooperative executor.
pub struct Executor {
    tasks: Vec<Task>,
    queue: VecDeque<usize>,
    waiters: Waiters,
    open: bool,
    serial: u64,
    started: usize,
}

impl View for Executor {
    type V = ExecutorModel;

    closed spec fn view(&self) -> ExecutorModel {
        ExecutorModel {
            tasks: self.tasks@.map_values(|t: Task| t@),
            queue: self.queue@,
            cells: self.waiters@,
            open: self.open,
            serial: self.serial,
            started: self.started as nat,
        }
    }
}

impl Executor {
    pub fn new() -> (r: Executor)
        ensures
            r@.wf(),
            r@.tasks == Seq::<TaskModel>::empty(),
            r@.queue == Seq::<usize>::empty(),
            r@.cells == Seq::<WaitCell>::empty(),
            r@.open,
            r@.serial == 0,
            r@.started == 0,
    {
        let r = Executor {
            tasks: Vec::new(),
            queue: VecDeque::new(),
            waiters: Waiters::new(),
            open: true,
            serial: 0,
            started: 0,
        };
        assert(r@.tasks =~= Seq::<TaskModel>::empty());
        r
    }
    /// Submits a computation as a new task and schedules it at once.
    /// Once the submission handle has been dropped nothing can be submitted.
    pub fn spawn(&mut self, comp: Computation) -> (r: Option<usize>)
        requires
            old(self)@.wf(),
            comp@.fresh(),
        ensures
            final(self)@.wf(),
            !old(self)@.open ==> r is None && final(self)@ == old(self)@,
            old(self)@.open ==> r == Some(old(self)@.tasks.len() as usize) && final(self)@ == (
            ExecutorModel {
                tasks: old(self)@.tasks.push(TaskModel { comp: comp@, live: true, polls: 0 }),
                queue: old(self)@.queue.push(old(self)@.tasks.len() as usize),
                ..old(self)@
            }),
    {
        if !self.open {
            return None;
        }
        let id = self.tasks.len();
        let ghost cells = self.waiters@;
        assert(comp@.wf_in(cells));
        self.tasks.push(Task { comp, live: true, polls: 0 });
        self.queue.push_back(id);
        assert(self@.tasks =~= old(self)@.tasks.push(TaskModel { comp: comp@, live: true, polls: 0 }));
        Some(id)
    }

    /// Drops the submission handle.
    pub fn close(&mut self)
        requires
            old(self)@.wf(),
        ensures
            final(self)@.wf(),
            final(self)@ == (ExecutorModel { open: false, ..old(self)@ }),
    {
        self.open = false;
    }

    /// Invokes a wake handle: the task it is bound to goes to the back of
    /// the ready queue, unless it has already completed.
    pub fn wake(&mut self, h: WakeHandle)
        requires
            old(self)@.wf(),
        ensures
            final(self)@.wf(),
            final(self)@ == old(self)@.woken(h),
    {
        if h.task < self.tasks.len() && self.tasks[h.task].live {
            self.queue.push_back(h.task);
            assert forall|k: int| 0 <= k < self@.queue.len() implies #[trigger] self@.queue[k]
                < self@.tasks.len() by {
                if k < old(self)@.queue.len() {
                    assert(old(self)@.queue[k] < old(self)@.tasks.len());
                }
            }
        }
    }

    /// The waiting thread of `cell` reached its deadline and invokes the
    /// handle stored in its cell; returns that handle. A cell fires once.
    pub fn fire(&mut self, cell: usize) -> (r: Option<WakeHandle>)
        requires
            old(self)@.wf(),
            cell < old(self)@.cells.len(),
        ensures
            final(self)@.wf(),
            (final(self)@, r) == old(self)@.fired(cell),
    {
        let r = self.waiters.fire(cell);
        proof {
            assert(self@.tasks == old(self)@.tasks);
            assert(self@.queue == old(self)@.queue);
            assert(self@.cells.len() == old(self)@.cells.len());
            assert forall|i: int| 0 <= i < self@.tasks.len() implies (
            #[trigger] self@.tasks[i]).comp.wf_in(self@.cells) by {
                lemma_wf_mono(old(self)@.tasks[i].comp, old(self)@.cells, self@.cells);
            }
        }
        match r {
            Some(h) => {
                self.wake(h);
            },
            None => {},
        }
        r
    }

    /// Whether every producer handle is gone.
    pub fn producers_gone(&self) -> (r: bool)
        ensures
            r == producers_gone(self@),
    {
        if self.open {
            return false;
        }
        let mut i: usize = 0;
        while i < self.tasks.len()
            invariant
                0 <= i <= self.tasks@.len(),
                !self.open,
                forall|j: int| 0 <= j < i ==> !(#[trigger] self@.tasks[j]).live,
            decreases self.tasks@.len() - i,
        {
            if self.tasks[i].live {
                assert(self@.tasks[i as int].live);
                return false;
            }
            i = i + 1;
        }
        true
    }

    /// One turn of the run loop at time `now`.
    ///
    /// Takes the task at the front of the ready queue and polls it with a
    /// fresh wake handle; a task whose computation answers `Ready` is
    /// dropped. A `Pending` task is not put back: its computation keeps the
    /// handle, and invoking it is what schedules the task again.
    pub fn step(&mut self, now: u64) -> (r: RunStep)
        requires
            old(self)@.wf(),
            old(self)@.serial < u64::MAX,
        ensures
            final(self)@.wf(),
            (final(self)@, r) == old(self)@.stepped(now),
    {
        let ghost m0 = self@;
        match self.queue.pop_front() {
            None => {
                if self.producers_gone() {
                    RunStep::Finished
                } else {
                    RunStep::Idle
                }
            },
            Some(id) => {
                assert(m0.queue[0] < m0.tasks.len());
                if !self.tasks[id].live {
                    proof {
                        assert forall|k: int| 0 <= k < self@.queue.len() implies #[trigger] self@.queue[k]
                            < self@.tasks.len() by {
                            assert(m0.queue[k + 1] < m0.tasks.len());
                        }
                    }
                    return RunStep::Skipped(id);
                }
                let h = WakeHandle { task: id, serial: self.serial };
                assert(m0.tasks[id as int].polls <= m0.serial);
                let s = self.tasks[id].comp.poll(&mut self.waiters, now, h);
                let ready = s.is_ready();
                self.tasks[id].polls = self.tasks[id].polls + 1;
                if ready {
                    self.tasks[id].live = false;
                }
                self.serial = self.serial + 1;
                proof {
                    assert(self@.tasks =~= m0.tasks.update(
                        id as int,
                        TaskModel {
                            comp: self@.tasks[id as int].comp,
                            live: !ready,
                            polls: (m0.tasks[id as int].polls + 1) as u64,
                        },
                    ));
                    assert forall|k: int| 0 <= k < self@.queue.len() implies #[trigger] self@.queue[k]
                        < self@.tasks.len() by {
                        assert(m0.queue[k + 1] < m0.tasks.len());
                    }
                    assert forall|i: int| 0 <= i < self@.tasks.len() implies (
                    #[trigger] self@.tasks[i]).comp.wf_in(self@.cells) by {
                        if i != id {
                            lemma_wf_mono(m0.tasks[i].comp, m0.cells, self@.cells);
                        }
                    }
                    assert forall|i: int| 0 <= i < self@.tasks.len() implies (
                    #[trigger] self@.tasks[i]).polls <= self@.serial by {
                        assert(m0.tasks[i].polls <= m0.serial);
                    }
                }
                RunStep::Polled { task: id, ready }
            },
        }
    }
    /// Runs turns of the loop at time `now` until the ready queue is empty.
    /// Answers `Finished` exactly when no producer handle remains, so that
    /// nothing can ever be scheduled again, and `Idle` otherwise.
    pub fn run_ready(&mut self, now: u64) -> (r: RunStep)
        requires
            old(self)@.wf(),
            old(self)@.serial + old(self)@.queue.len() < u64::MAX,
        ensures
            final(self)@.wf(),
            (final(self)@, r) == old(self)@.ran(now),
            final(self)@.queue.len() == 0,
            r == RunStep::Finished <==> producers_gone(final(self)@),
            r == RunStep::Finished || r == RunStep::Idle,
    {
        let ghost m0 = self@;
        loop
            invariant
                self@.wf(),
                m0 == old(self)@,
                self@.ran(now) == m0.ran(now),
                self@.serial + self@.queue.len() < u64::MAX,
            decreases self@.queue.len(),
        {
            let ghost before = self@;
            let r = self.step(now);
            match r {
                RunStep::Idle => {
                    assert(before.queue.len() == 0);
                    assert(before.ran(now) == before.stepped(now));
                    return r;
                },
                RunStep::Finished => {
                    assert(before.queue.len() == 0);
                    assert(before.ran(now) == before.stepped(now));
                    return r;
                },
                _ => {
                    assert(before.queue.len() > 0);
                },
            }
        }
    }

    /// Hands out the wait cells armed since the last call, each with its
    /// deadline: for each one a waiting thread is to be started.
    pub fn take_waiters(&mut self) -> (r: Vec<(usize, u64)>)
        requires
            old(self)@.wf(),
        ensures
            final(self)@.wf(),
            final(self)@ == (ExecutorModel { started: old(self)@.cells.len(), ..old(self)@ }),
            r@.len() == old(self)@.cells.len() - old(self)@.started,
            forall|k: int|
                0 <= k < r@.len() ==> #[trigger] r@[k] == (
                (old(self)@.started + k) as usize,
                old(self)@.cells[old(self)@.started + k].deadline,
            ),
    {
        let mut r: Vec<(usize, u64)> = Vec::new();
        let n = self.waiters.len();
        let s0 = self.started;
        let mut i = s0;
        while i < n
            invariant
                s0 <= i <= n,
                n == self.waiters@.len(),
                r@.len() == i - s0,
                forall|k: int|
                    0 <= k < r@.len() ==> #[trigger] r@[k] == (
                    (s0 + k) as usize,
                    self.waiters@[s0 + k].deadline,
                ),
            decreases n - i,
        {
            let c = self.waiters.get(i);
            r.push((i, c.deadline));
            i = i + 1;
        }
        self.started = n;
        r
    }

    pub fn polls_of(&self, task: usize) -> (r: u64)
        requires
            task < self@.tasks.len(),
        ensures
            r == self@.tasks[task as int].polls,
    {
        self.tasks[task].polls
    }

    pub fn is_live(&self, task: usize) -> (r: bool)
        requires
            task < self@.tasks.len(),
        ensures
            r == self@.tasks[task as int].live,
    {
        self.tasks[task].live
    }

    pub fn task_count(&self) -> (r: usize)
        ensures
            r == self@.tasks.len(),
    {
        self.tasks.len()
    }

    pub fn queue_len(&self) -> (r: usize)
        ensures
            r == self@.queue.len(),
    {
        self.queue.len()
    }

    pub fn serial(&self) -> (r: u64)
        ensures
            r == self@.serial,
    {
        self.serial
    }

    pub fn waiter(&self, cell: usize) -> (r: WaitCell)
        requires
            cell < self@.cells.len(),
        ensures
            r == self@.cells[cell as int],
    {
        self.waiters.get(cell)
    }
}

} // verus!
