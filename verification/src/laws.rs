use vstd::prelude::*;

use crate::error::Error;
use crate::model::State;
use crate::queue::lemma_without;

verus! {

/// How often `id` occurs in `queue`.
pub open spec fn occurrences(queue: Seq<u64>, id: u64) -> nat {
    queue.to_multiset().count(id)
}

/// A task that has just been published has no worker and waits in the task
/// queue.
pub proof fn law_published_task_is_open_and_queued(s: State, image_url: Seq<char>)
    ensures
        ({
            let task_id = s.next_task_id as u64;
            let t = s.add_task(image_url);
            &&& t.tasks.contains_key(task_id)
            &&& t.tasks[task_id].assigned_to is None
            &&& t.task_queue.contains(task_id)
        }),
{
    let task_id = s.next_task_id as u64;
    let t = s.add_task(image_url);
    assert(t.task_queue[s.task_queue.len() as int] == task_id);
}

/// Assigning a task that does not wait in the task queue is refused with
/// `NotQueued`, whoever asks and whatever else the state holds.
pub proof fn law_unqueued_task_is_not_assigned(
    s: State,
    task_id: u64,
    worker: Seq<char>,
    now: u64,
)
    requires
        !s.task_queue.contains(task_id),
    ensures
        s.assign_task(task_id, worker, now) == Err::<State, Error>(Error::NotQueued),
{
}

/// Once a task is assigned it has left the task queue, and assigning it
/// again, to anybody, is refused with `NotQueued`.
pub proof fn law_assigned_task_leaves_queue(
    s: State,
    task_id: u64,
    worker: Seq<char>,
    now: u64,
    second_worker: Seq<char>,
    later: u64,
)
    requires
        s.inv(),
        s.assign_task(task_id, worker, now) is Ok,
    ensures
        ({
            let t = s.assign_task(task_id, worker, now)->Ok_0;
            &&& !t.task_queue.contains(task_id)
            &&& t.tasks[task_id].assigned_to == Some(worker)
            &&& t.assign_task(task_id, second_worker, later) == Err::<State, Error>(
                Error::NotQueued,
            )
        }),
{
    lemma_without(s.task_queue, task_id);
}

/// Handing in a task on behalf of anybody but its worker is refused with
/// `NotAssignee`.
pub proof fn law_only_assignee_submits(
    s: State,
    task_id: u64,
    descriptions: Seq<char>,
    caller: Seq<char>,
)
    requires
        s.tasks.contains_key(task_id),
        s.tasks[task_id].assigned_to != Some(caller),
    ensures
        s.submit_task(task_id, descriptions, caller) == Err::<State, Error>(Error::NotAssignee),
{
}

/// A submission that goes through makes the review queue longer by exactly
/// one and creates a review under an identifier that no review has had: it
/// is the counter's value, above every identifier issued so far, and the
/// counter moves past it.
pub proof fn law_submission_opens_fresh_review(
    s: State,
    task_id: u64,
    descriptions: Seq<char>,
    caller: Seq<char>,
)
    requires
        s.inv(),
        s.submit_task(task_id, descriptions, caller) is Ok,
    ensures
        ({
            let review_id = s.next_review_id as u64;
            let t = s.submit_task(task_id, descriptions, caller)->Ok_0;
            &&& t.review_queue.len() == s.review_queue.len() + 1
            &&& t.review_queue.last() == review_id
            &&& !s.reviews.contains_key(review_id)
            &&& !s.review_queue.contains(review_id)
            &&& forall|id: u64| s.reviews.contains_key(id) ==> id < review_id
            &&& t.reviews.contains_key(review_id)
            &&& t.reviews[review_id].task_id == task_id
            &&& t.next_review_id == review_id + 1
        }),
{
}

/// A verdict is final. Once a review has its verdict, the same caller's next
/// verdict on it is refused with `AlreadyAdjudicated`, and any verdict on it,
/// by anybody, is refused. A refused verdict asks for no payment, so an
/// acceptance is paid for once at most.
pub proof fn law_verdict_is_final(
    s: State,
    review_id: u64,
    accept: bool,
    caller: Seq<char>,
    next_accept: bool,
    other_caller: Seq<char>,
)
    requires
        s.inv(),
        s.review_task(review_id, accept, caller) is Ok,
    ensures
        ({
            let t = s.review_task(review_id, accept, caller)->Ok_0;
            &&& t.reviews[review_id].is_adjudicated
            &&& t.reviews[review_id].is_accepted == accept
            &&& t.review_task(review_id, next_accept, caller) == Err::<State, Error>(
                Error::AlreadyAdjudicated,
            )
            &&& t.review_task(review_id, next_accept, other_caller) is Err
        }),
{
}

/// A rejection puts the task of the review back into the task queue, where
/// it then occurs exactly once, at the back.
pub proof fn law_rejection_requeues_task_once(s: State, review_id: u64, caller: Seq<char>)
    requires
        s.inv(),
        s.review_task(review_id, false, caller) is Ok,
    ensures
        ({
            let task_id = s.reviews[review_id].task_id;
            let t = s.review_task(review_id, false, caller)->Ok_0;
            &&& t.task_queue == s.task_queue.push(task_id)
            &&& occurrences(t.task_queue, task_id) == 1
            &&& t.tasks[task_id].is_open()
            &&& !t.tasks[task_id].is_completed
        }),
{
    let task_id = s.reviews[review_id].task_id;
    let t = s.review_task(review_id, false, caller)->Ok_0;
    assert(!s.task_queue.contains(task_id));
    s.task_queue.to_multiset_ensures();
    assert(s.task_queue.to_multiset().count(task_id) == 0);
    assert(t.task_queue.to_multiset() =~= s.task_queue.to_multiset().insert(task_id));
}

/// A verdict on a review that nobody has claimed is refused with
/// `NotReviewer`, whoever gives it.
pub proof fn law_unclaimed_review_takes_no_verdict(
    s: State,
    review_id: u64,
    accept: bool,
    caller: Seq<char>,
)
    requires
        !s.reviews.contains_key(review_id) || s.reviews[review_id].reviewed_by is None,
    ensures
        s.review_task(review_id, accept, caller) == Err::<State, Error>(Error::NotReviewer),
{
}

/// No operation removes a record, changes which task a review is about or
/// moves a counter back: what was issued stays issued, so no identifier is
/// given twice.
pub proof fn law_records_are_kept(
    s: State,
    id: u64,
    text: Seq<char>,
    who: Seq<char>,
    now: u64,
    accept: bool,
)
    requires
        s.inv(),
    ensures
        s.add_task(text).keeps_records_of(s),
        s.assign_task(id, who, now) matches Ok(t) ==> t.keeps_records_of(s),
        s.submit_task(id, text, who) matches Ok(t) ==> t.keeps_records_of(s),
        s.assign_review_task(id, who, now) matches Ok(t) ==> t.keeps_records_of(s),
        s.review_task(id, accept, who) matches Ok(t) ==> t.keeps_records_of(s),
{
}

/// The task `task_id` exists and a submission of it stands.
pub open spec fn completed(s: State, task_id: u64) -> bool {
    s.tasks.contains_key(task_id) && s.tasks[task_id].is_completed
}

/// A task becomes completed by a submission of that task and by nothing
/// else: after any other operation, a completed task was completed before.
pub proof fn law_only_submission_completes(
    s: State,
    id: u64,
    text: Seq<char>,
    who: Seq<char>,
    now: u64,
    accept: bool,
    task_id: u64,
)
    requires
        s.inv(),
        !completed(s, task_id),
    ensures
        !completed(s.add_task(text), task_id),
        s.assign_task(id, who, now) matches Ok(t) ==> !completed(t, task_id),
        s.submit_task(id, text, who) matches Ok(t) ==> (completed(t, task_id) <==> id == task_id),
        s.assign_review_task(id, who, now) matches Ok(t) ==> !completed(t, task_id),
        s.review_task(id, accept, who) matches Ok(t) ==> !completed(t, task_id),
{
}

/// A verdict is taken only on a review whose task is handed in: when the
/// verdict goes through, the task was completed and assigned.
pub proof fn law_verdict_needs_submission(
    s: State,
    review_id: u64,
    accept: bool,
    caller: Seq<char>,
)
    requires
        s.inv(),
        s.review_task(review_id, accept, caller) is Ok,
    ensures
        ({
            let task_id = s.reviews[review_id].task_id;
            &&& s.tasks.contains_key(task_id)
            &&& s.tasks[task_id].is_completed
            &&& s.tasks[task_id].assigned_to is Some
            &&& !s.task_queue.contains(task_id)
        }),
{
}

/// In a valid state the queue checks decide alone: a task that waits in the
/// task queue has no worker, and a review that waits in the review queue is
/// unclaimed, so `AlreadyAssigned` does not occur.
pub proof fn law_queued_means_unassigned(s: State, id: u64, who: Seq<char>, now: u64)
    requires
        s.inv(),
    ensures
        s.assign_task(id, who, now) != Err::<State, Error>(Error::AlreadyAssigned),
        s.assign_review_task(id, who, now) != Err::<State, Error>(Error::AlreadyAssigned),
        s.task_queue.contains(id) ==> s.assign_task(id, who, now) is Ok,
        s.review_queue.contains(id) ==> s.assign_review_task(id, who, now) is Ok,
{
}

} // verus!
