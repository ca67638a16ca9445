use vstd::prelude::*;

verus! {

/// Why an operation was refused. A refused operation changes nothing.
#[derive(Clone, Copy, Debug, PartialEq, Eq, Structural)]
pub enum Error {
    /// The identifier is not waiting in the queue it was looked for in.
    NotQueued,
    /// The record is already claimed by somebody.
    AlreadyAssigned,
    /// No record or queue entry has this identifier.
    NotFound,
    /// The caller is not the worker the task is assigned to.
    NotAssignee,
    /// The caller is not the one the review is assigned to.
    NotReviewer,
    /// The task has already been submitted.
    AlreadyCompleted,
    /// The review has already been accepted or rejected.
    AlreadyAdjudicated,
    /// The identifier is already in the queue.
    DuplicateEntry,
}

} // verus!
