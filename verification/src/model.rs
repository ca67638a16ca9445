use vstd::prelude::*;

use crate::error::Error;
use crate::queue::{lemma_appended, lemma_without, without};
use crate::record::{PayoutView, ReviewTaskView, TaskView, REWARD};

verus! {

/// The whole pipeline as a mathematical value: the records, the two queues,
/// the two identifier counters and the account that rewards are paid into.
/// Each operation is a function from the state before to the state after.
#[verifier::ext_equal]
pub struct State {
    pub tasks: Map<u64, TaskView>,
    pub reviews: Map<u64, ReviewTaskView>,
    pub task_queue: Seq<u64>,
    pub review_queue: Seq<u64>,
    pub next_task_id: nat,
    pub next_review_id: nat,
    pub payout_account: Seq<char>,
}

impl State {
    /// Nothing published yet.
    pub open spec fn init(payout_account: Seq<char>) -> State {
        State {
            tasks: Map::empty(),
            reviews: Map::empty(),
            task_queue: Seq::empty(),
            review_queue: Seq::empty(),
            next_task_id: 0,
            next_review_id: 0,
            payout_account,
        }
    }

    /// Publishing: a new open task under the next task identifier, at the
    /// back of the task queue.
    pub open spec fn add_task(self, image_url: Seq<char>) -> State {
        let id = self.next_task_id as u64;
        State {
            tasks: self.tasks.insert(id, TaskView::open(id, image_url)),
            task_queue: self.task_queue.push(id),
            next_task_id: self.next_task_id + 1,
            ..self
        }
    }

    /// A worker claims a queued task. The task must wait in the task queue
    /// and have no worker; it then leaves the queue.
    pub open spec fn assign_task(self, task_id: u64, worker: Seq<char>, now: u64) -> Result<
        State,
        Error,
    > {
        if !self.task_queue.contains(task_id) {
            Err(Error::NotQueued)
        } else if !self.tasks[task_id].is_open() {
            Err(Error::AlreadyAssigned)
        } else {
            Ok(
                State {
                    tasks: self.tasks.insert(task_id, self.tasks[task_id].claimed(worker, now)),
                    task_queue: without(self.task_queue, task_id),
                    ..self
                },
            )
        }
    }

    /// The worker hands in a task. The task must exist, be assigned to the
    /// caller and not be completed; a new pending review under the next
    /// review identifier then joins the back of the review queue.
    pub open spec fn submit_task(self, task_id: u64, descriptions: Seq<char>, caller: Seq<char>)
        -> Result<State, Error> {
        if !self.tasks.contains_key(task_id) {
            Err(Error::NotFound)
        } else if self.tasks[task_id].assigned_to != Some(caller) {
            Err(Error::NotAssignee)
        } else if self.tasks[task_id].is_completed {
            Err(Error::AlreadyCompleted)
        } else {
            let review_id = self.next_review_id as u64;
            Ok(
                State {
                    tasks: self.tasks.insert(task_id, self.tasks[task_id].submitted(descriptions)),
                    reviews: self.reviews.insert(
                        review_id,
                        ReviewTaskView::pending(review_id, task_id),
                    ),
                    review_queue: self.review_queue.push(review_id),
                    next_review_id: self.next_review_id + 1,
                    ..self
                },
            )
        }
    }

    /// A queued review is claimed. The review must wait in the review queue
    /// and be unclaimed; it then leaves the queue.
    pub open spec fn assign_review_task(self, review_id: u64, reviewer: Seq<char>, now: u64)
        -> Result<State, Error> {
        if !self.review_queue.contains(review_id) {
            Err(Error::NotQueued)
        } else if !self.reviews[review_id].is_pending() {
            Err(Error::AlreadyAssigned)
        } else {
            Ok(
                State {
                    reviews: self.reviews.insert(
                        review_id,
                        self.reviews[review_id].claimed(reviewer, now),
                    ),
                    review_queue: without(self.review_queue, review_id),
                    ..self
                },
            )
        }
    }

    /// The verdict on a review. The review must exist and be assigned
    /// to the caller, and have no verdict yet. An acceptance is final. A
    /// rejection opens the task again, for anybody, and puts it at the back
    /// of the task queue; the task record is kept.
    pub open spec fn review_task(self, review_id: u64, accept: bool, caller: Seq<char>) -> Result<
        State,
        Error,
    > {
        if !self.reviews.contains_key(review_id) || self.reviews[review_id].reviewed_by != Some(
            caller,
        ) {
            Err(Error::NotReviewer)
        } else if self.reviews[review_id].is_adjudicated {
            Err(Error::AlreadyAdjudicated)
        } else {
            let decided = self.reviews.insert(review_id, self.reviews[review_id].decided(accept));
            let task_id = self.reviews[review_id].task_id;
            if accept {
                Ok(State { reviews: decided, ..self })
            } else {
                Ok(
                    State {
                        tasks: self.tasks.insert(task_id, self.tasks[task_id].reopened()),
                        reviews: decided,
                        task_queue: self.task_queue.push(task_id),
                        ..self
                    },
                )
            }
        }
    }

    /// The payment that a verdict asks for: the fixed reward into the payout
    /// account for an acceptance, nothing for a rejection.
    pub open spec fn payout(self, accept: bool) -> Option<PayoutView> {
        if accept {
            Some(PayoutView { amount: REWARD, account: self.payout_account })
        } else {
            None
        }
    }

    /// The task records are exactly those of the identifiers issued so far,
    /// each under its own identifier and consistent in itself.
    pub open spec fn tasks_inv(self) -> bool {
        &&& self.next_task_id <= u64::MAX
        &&& forall|id: u64| #[trigger] self.tasks.contains_key(id) <==> id < self.next_task_id
        &&& forall|id: u64|
            self.tasks.contains_key(id) ==> (#[trigger] self.tasks[id]).id == id
                && self.tasks[id].consistent()
    }

    /// The task queue holds, once each, exactly the tasks that nobody has.
    pub open spec fn task_queue_inv(self) -> bool {
        &&& self.task_queue.no_duplicates()
        &&& forall|id: u64| #[trigger]
            self.task_queue.contains(id) <==> self.tasks.contains_key(id)
                && self.tasks[id].is_open()
    }

    /// The review records are exactly those of the identifiers issued so
    /// far, each under its own identifier, consistent in itself and about an
    /// existing task.
    pub open spec fn reviews_inv(self) -> bool {
        &&& self.next_review_id <= u64::MAX
        &&& forall|id: u64| #[trigger]
            self.reviews.contains_key(id) <==> id < self.next_review_id
        &&& forall|id: u64|
            self.reviews.contains_key(id) ==> (#[trigger] self.reviews[id]).id == id
                && self.reviews[id].consistent() && self.tasks.contains_key(
                self.reviews[id].task_id,
            )
    }

    /// The review queue holds, once each, exactly the reviews that nobody
    /// has.
    pub open spec fn review_queue_inv(self) -> bool {
        &&& self.review_queue.no_duplicates()
        &&& forall|id: u64| #[trigger]
            self.review_queue.contains(id) <==> self.reviews.contains_key(id)
                && self.reviews[id].is_pending()
    }

    /// A review without a verdict is about a completed task, and no two
    /// such reviews are about the same task.
    pub open spec fn open_reviews_inv(self) -> bool {
        &&& forall|id: u64|
            self.reviews.contains_key(id) && !(#[trigger] self.reviews[id]).is_adjudicated
                ==> self.tasks[self.reviews[id].task_id].is_completed
        &&& forall|a: u64, b: u64|
            {
                &&& self.reviews.contains_key(a)
                &&& self.reviews.contains_key(b)
                &&& !(#[trigger] self.reviews[a]).is_adjudicated
                &&& !(#[trigger] self.reviews[b]).is_adjudicated
                &&& self.reviews[a].task_id == self.reviews[b].task_id
            } ==> a == b
    }

    /// Nothing that `earlier` holds is lost: every record is still there,
    /// under the same identifier and, for a review, about the same task, and
    /// neither counter has gone back.
    pub open spec fn keeps_records_of(self, earlier: State) -> bool {
        &&& earlier.next_task_id <= self.next_task_id
        &&& earlier.next_review_id <= self.next_review_id
        &&& forall|id: u64| #[trigger]
            earlier.tasks.contains_key(id) ==> self.tasks.contains_key(id) && self.tasks[id].id
                == earlier.tasks[id].id
        &&& forall|id: u64| #[trigger]
            earlier.reviews.contains_key(id) ==> self.reviews.contains_key(id)
                && self.reviews[id].id == earlier.reviews[id].id && self.reviews[id].task_id
                == earlier.reviews[id].task_id
    }

    /// What holds of every state that the operations can reach.
    pub open spec fn inv(self) -> bool {
        &&& self.tasks_inv()
        &&& self.task_queue_inv()
        &&& self.reviews_inv()
        &&& self.review_queue_inv()
        &&& self.open_reviews_inv()
    }
}

/// The initial state is valid.
pub proof fn lemma_init_inv(payout_account: Seq<char>)
    ensures
        State::init(payout_account).inv(),
{
}

/// Publishing keeps the state valid, as long as an identifier is left.
pub proof fn lemma_add_task_inv(s: State, image_url: Seq<char>)
    requires
        s.inv(),
        s.next_task_id < u64::MAX,
    ensures
        s.add_task(image_url).inv(),
{
    lemma_appended(s.task_queue, s.next_task_id as u64);
}

/// Claiming a task keeps the state valid.
pub proof fn lemma_assign_task_inv(s: State, task_id: u64, worker: Seq<char>, now: u64)
    requires
        s.inv(),
        s.assign_task(task_id, worker, now) is Ok,
    ensures
        s.assign_task(task_id, worker, now)->Ok_0.inv(),
{
    lemma_without(s.task_queue, task_id);
}

/// Handing in a task keeps the state valid, as long as an identifier is
/// left.
pub proof fn lemma_submit_task_inv(
    s: State,
    task_id: u64,
    descriptions: Seq<char>,
    caller: Seq<char>,
)
    requires
        s.inv(),
        s.next_review_id < u64::MAX,
        s.submit_task(task_id, descriptions, caller) is Ok,
    ensures
        s.submit_task(task_id, descriptions, caller)->Ok_0.inv(),
{
    lemma_appended(s.review_queue, s.next_review_id as u64);
}

/// Claiming a review keeps the state valid.
pub proof fn lemma_assign_review_task_inv(
    s: State,
    review_id: u64,
    reviewer: Seq<char>,
    now: u64,
)
    requires
        s.inv(),
        s.assign_review_task(review_id, reviewer, now) is Ok,
    ensures
        s.assign_review_task(review_id, reviewer, now)->Ok_0.inv(),
{
    lemma_without(s.review_queue, review_id);
}

/// A verdict keeps the state valid.
pub proof fn lemma_review_task_inv(s: State, review_id: u64, accept: bool, caller: Seq<char>)
    requires
        s.inv(),
        s.review_task(review_id, accept, caller) is Ok,
    ensures
        s.review_task(review_id, accept, caller)->Ok_0.inv(),
{
    if !accept {
        lemma_appended(s.task_queue, s.reviews[review_id].task_id);
    }
}

} // verus!
