use vstd::prelude::*;
use crate::status::WakeHandle;

verus! {

/// The shared state of one background waiting thread: the deadline it sleeps
/// until and the wake handle it will invoke, kept under one lock.
#[derive(Clone, Copy, Debug, PartialEq, Eq, Structural)]
pub struct WaitCell {
    pub deadline: u64,
    pub handle: WakeHandle,
    pub fired: bool,
}

/// Every waiting thread ever started, indexed by the order of creation.
pub struct Waiters {
    cells: Vec<WaitCell>,
}

/// `w2` keeps every cell of `w`, with its deadline, and may add more.
pub open spec fn extends(w: Seq<WaitCell>, w2: Seq<WaitCell>) -> bool {
    &&& w.len() <= w2.len()
    &&& forall|i: int| 0 <= i < w.len() ==> #[trigger] w2[i].deadline == w[i].deadline
}

/// Extension is transitive.
pub proof fn lemma_extends_trans(w1: Seq<WaitCell>, w2: Seq<WaitCell>, w3: Seq<WaitCell>)
    requires
        extends(w1, w2),
        extends(w2, w3),
    ensures
        extends(w1, w3),
{
    assert forall|i: int| 0 <= i < w1.len() implies #[trigger] w3[i].deadline == w1[i].deadline by {
        assert(w3[i].deadline == w2[i].deadline);
    }
}

impl View for Waiters {
    type V = Seq<WaitCell>;

    closed spec fn view(&self) -> Seq<WaitCell> {
        self.cells@
    }
}

impl Waiters {
    pub fn new() -> (r: Waiters)
        ensures
            r@ == Seq::<WaitCell>::empty(),
    {
        Waiters { cells: Vec::new() }
    }

    pub fn len(&self) -> (r: usize)
        ensures
            r == self@.len(),
    {
        self.cells.len()
    }

    pub fn get(&self, cell: usize) -> (r: WaitCell)
        requires
            cell < self@.len(),
        ensures
            r == self@[cell as int],
    {
        self.cells[cell]
    }

    /// Starts a waiting thread for `deadline` that will invoke `handle`;
    /// returns the index of its cell.
    pub fn arm(&mut self, deadline: u64, handle: WakeHandle) -> (r: usize)
        ensures
            r == old(self)@.len(),
            final(self)@ == old(self)@.push(WaitCell { deadline, handle, fired: false }),
    {
        let r = self.cells.len();
        self.cells.push(WaitCell { deadline, handle, fired: false });
        r
    }

    /// Compares the stored handle with `handle` by identity and replaces it
    /// when they differ.
    pub fn refresh(&mut self, cell: usize, handle: WakeHandle)
        requires
            cell < old(self)@.len(),
        ensures
            final(self)@ == old(self)@.update(cell as int, WaitCell { handle, ..old(self)@[cell as int] }),
    {
        let c = self.cells[cell];
        if c.handle != handle {
            self.cells.set(cell, WaitCell { handle, ..c });
        } else {
            assert(self@ =~= old(self)@.update(cell as int, WaitCell { handle, ..c }));
        }
    }

    /// The waiting thread of `cell` reached its deadline: it invokes the
    /// stored handle once and exits. A cell that already fired yields nothing.
    pub fn fire(&mut self, cell: usize) -> (r: Option<WakeHandle>)
        requires
            cell < old(self)@.len(),
        ensures
            old(self)@[cell as int].fired ==> r is None && final(self)@ == old(self)@,
            !old(self)@[cell as int].fired ==> r == Some(old(self)@[cell as int].handle)
                && final(self)@ == old(self)@.update(cell as int, WaitCell { fired: true, ..old(self)@[cell as int] }),
    {
        let c = self.cells[cell];
        if c.fired {
            None
        } else {
            self.cells.set(cell, WaitCell { fired: true, ..c });
            Some(c.handle)
        }
    }
}

} // verus!
