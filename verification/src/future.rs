//! Plain types of the task executor.
use vstd::prelude::*;

verus! {

/// The result of waiting on two things: which one finished first, with its output.
pub enum Either<A, B> {
    Left(A),
    Right(B),
}

/// Identifies a task of the executor.
#[derive(Clone, Copy, PartialEq, Eq, Structural)]
pub struct TaskId(pub u64);

impl TaskId {
    /// The id after this one, which the executor gives the next task it spawns.
    pub fn next(&self) -> (r: TaskId)
        requires
            self.0 < u64::MAX,
        ensures
            r.0 == self.0 + 1,
    {
        TaskId(self.0 + 1)
    }
}

} // verus!
