use vstd::prelude::*;

verus! {

/// Outcome of one poll of a computation.
#[derive(Clone, Copy, Debug, PartialEq, Eq, Structural)]
pub enum Status<T> {
    Ready(T),
    Pending,
}

impl<T> Status<T> {
    pub fn is_ready(&self) -> (r: bool)
        ensures
            r == (*self is Ready),
    {
        match self {
            Status::Ready(_) => true,
            Status::Pending => false,
        }
    }

    pub fn is_pending(&self) -> (r: bool)
        ensures
            r == (*self is Pending),
    {
        match self {
            Status::Ready(_) => false,
            Status::Pending => true,
        }
    }
}

/// A notification token bound to one task.
///
/// The executor makes a fresh handle for every poll: `serial` tells two
/// handles of the same task apart, so handles are compared by identity.
#[derive(Clone, Copy, Debug, PartialEq, Eq, Structural)]
pub struct WakeHandle {
    pub task: usize,
    pub serial: u64,
}

} // verus!
