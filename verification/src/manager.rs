use vstd::prelude::*;

use crate::error::Error;
use crate::model::{
    lemma_add_task_inv, lemma_assign_review_task_inv, lemma_assign_task_inv, lemma_init_inv,
    lemma_review_task_inv, lemma_submit_task_inv, State,
};
use crate::queue::Queue;
use crate::record::{principal_is, Payout, PayoutView, ReviewTask, Task, REWARD};
use crate::snapshot::Snapshot;
use crate::store::Store;

verus! {

/// What an optional payment stands for in contracts.
pub open spec fn payout_view(p: Option<Payout>) -> Option<PayoutView> {
    match p {
        Some(payout) => Some(payout@),
        None => None,
    }
}

/// The pipeline: the task and review records, the queue of open tasks, the
/// queue of pending reviews and the account that rewards are paid into.
///
/// A rejected submission opens its task again: the task record is kept, it
/// loses its worker and its completion, and its identifier goes to the back
/// of the task queue. No operation removes a task record.
pub struct TaskManager {
    tasks: Store<Task>,
    review_tasks: Store<ReviewTask>,
    task_queue: Queue,
    review_queue: Queue,
    payout_account: String,
}

impl View for TaskManager {
    type V = State;

    closed spec fn view(&self) -> State {
        State {
            tasks: self.tasks@,
            reviews: self.review_tasks@,
            task_queue: self.task_queue@,
            review_queue: self.review_queue@,
            next_task_id: self.tasks.next_free() as nat,
            next_review_id: self.review_tasks.next_free() as nat,
            payout_account: self.payout_account@,
        }
    }
}

impl TaskManager {
    /// The records and the queues agree with each other.
    pub open spec fn wf(&self) -> bool {
        self@.inv()
    }

    /// A pipeline with nothing published, which pays rewards into
    /// `payout_account`.
    pub fn new(payout_account: String) -> (manager: TaskManager)
        ensures
            manager.wf(),
            manager@ == State::init(payout_account@),
    {
        let manager = TaskManager {
            tasks: Store::new(),
            review_tasks: Store::new(),
            task_queue: Queue::new(),
            review_queue: Queue::new(),
            payout_account,
        };
        proof {
            lemma_init_inv(payout_account@);
        }
        manager
    }

    /// The pipeline that `snapshot` describes, if it describes one: `None`
    /// exactly when the data is not valid.
    pub fn restore(snapshot: Snapshot) -> (restored: Option<TaskManager>)
        ensures
            match restored {
                Some(manager) => manager.wf() && manager@ == snapshot@,
                None => !snapshot@.inv(),
            },
    {
        if !snapshot.is_valid() {
            return None;
        }
        let manager = TaskManager {
            tasks: Store::from_records(snapshot.tasks),
            review_tasks: Store::from_records(snapshot.review_tasks),
            task_queue: Queue::from_distinct(snapshot.task_queue),
            review_queue: Queue::from_distinct(snapshot.review_queue),
            payout_account: snapshot.payout_account,
        };
        Some(manager)
    }

    /// The pipeline as plain data, from which `restore` makes it again.
    pub fn snapshot(&self) -> (snapshot: Snapshot)
        requires
            self.wf(),
        ensures
            snapshot@ == self@,
    {
        let task_count: u64 = self.tasks.peek_id();
        let mut tasks: Vec<Task> = Vec::new();
        let mut id: u64 = 0;
        while id < task_count
            invariant
                self.wf(),
                task_count == self@.next_task_id,
                id <= task_count,
                tasks@.len() == id,
                forall|i: int| 0 <= i < id ==> (#[trigger] tasks@[i])@ == self@.tasks[i as u64],
            decreases task_count - id,
        {
            tasks.push(self.tasks.get(id).unwrap().clone());
            id += 1;
        }
        let review_count: u64 = self.review_tasks.peek_id();
        let mut review_tasks: Vec<ReviewTask> = Vec::new();
        let mut id: u64 = 0;
        while id < review_count
            invariant
                self.wf(),
                review_count == self@.next_review_id,
                id <= review_count,
                review_tasks@.len() == id,
                forall|i: int|
                    0 <= i < id ==> (#[trigger] review_tasks@[i])@ == self@.reviews[i as u64],
            decreases review_count - id,
        {
            review_tasks.push(self.review_tasks.get(id).unwrap().clone());
            id += 1;
        }
        let snapshot = Snapshot {
            tasks,
            review_tasks,
            task_queue: self.task_queue.snapshot(),
            review_queue: self.review_queue.snapshot(),
            payout_account: self.payout_account.clone(),
        };
        assert(snapshot@.tasks =~= self@.tasks);
        assert(snapshot@.reviews =~= self@.reviews);
        snapshot
    }

    /// Publishes a task and returns its identifier. The task is open and
    /// waits at the back of the task queue.
    pub fn add_task(&mut self, image_url: String) -> (task_id: u64)
        requires
            old(self).wf(),
            old(self)@.next_task_id < u64::MAX,
        ensures
            final(self).wf(),
            task_id == old(self)@.next_task_id,
            final(self)@ == old(self)@.add_task(image_url@),
            final(self)@.tasks.contains_key(task_id),
            final(self)@.tasks[task_id].assigned_to is None,
            final(self)@.task_queue.contains(task_id),
    {
        let task_id = self.tasks.next_id();
        self.tasks.insert(task_id, Task::new(task_id, image_url));
        // A new identifier cannot wait in the queue yet, so this is `Ok`.
        let _ = self.task_queue.push(task_id);
        proof {
            lemma_add_task_inv(old(self)@, image_url@);
        }
        task_id
    }

    /// Gives the queued task `task_id` to `user_account` at the time `now`
    /// and takes it out of the task queue.
    ///
    /// Refused with `NotQueued` if the task does not wait in the task queue,
    /// with `AlreadyAssigned` if it waits there but has a worker.
    pub fn assign_task(&mut self, task_id: u64, user_account: String, now: u64) -> (r: Result<
        (),
        Error,
    >)
        requires
            old(self).wf(),
        ensures
            final(self).wf(),
            match old(self)@.assign_task(task_id, user_account@, now) {
                Ok(next) => r is Ok && final(self)@ == next,
                Err(e) => r == Err::<(), Error>(e) && final(self)@ == old(self)@,
            },
            !old(self)@.task_queue.contains(task_id)
                ==> r == Err::<(), Error>(Error::NotQueued) && final(self)@ == old(self)@,
            r is Ok ==> !final(self)@.task_queue.contains(task_id),
    {
        if !self.task_queue.contains(task_id) {
            return Err(Error::NotQueued);
        }
        let task = self.tasks.get(task_id).unwrap();
        if task.assigned_to.is_some() {
            return Err(Error::AlreadyAssigned);
        }
        let mut claimed = task.clone();
        claimed.assigned_to = Some(user_account);
        claimed.assigned_at = Some(now);
        // Neither call fails: the record exists and its identifier waits.
        self.tasks.update(task_id, claimed)?;
        self.task_queue.remove(task_id)?;
        proof {
            lemma_assign_task_inv(old(self)@, task_id, user_account@, now);
        }
        Ok(())
    }

    /// Hands in `descriptions` for the task `task_id` on behalf of `caller`
    /// and opens a review for it, under a new review identifier, at the back
    /// of the review queue.
    ///
    /// Refused with `NotFound` if there is no such task, with `NotAssignee`
    /// if the task is not assigned to `caller`, with `AlreadyCompleted` if a
    /// submission is already in.
    pub fn submit_task(&mut self, task_id: u64, descriptions: String, caller: &String) -> (r:
        Result<(), Error>)
        requires
            old(self).wf(),
            old(self)@.next_review_id < u64::MAX,
        ensures
            final(self).wf(),
            match old(self)@.submit_task(task_id, descriptions@, caller@) {
                Ok(next) => r is Ok && final(self)@ == next,
                Err(e) => r == Err::<(), Error>(e) && final(self)@ == old(self)@,
            },
            old(self)@.tasks.contains_key(task_id)
                && old(self)@.tasks[task_id].assigned_to != Some(caller@)
                ==> r == Err::<(), Error>(Error::NotAssignee) && final(self)@ == old(self)@,
            r is Ok ==> {
                let review_id = old(self)@.next_review_id as u64;
                &&& !old(self)@.reviews.contains_key(review_id)
                &&& !old(self)@.review_queue.contains(review_id)
                &&& final(self)@.reviews.contains_key(review_id)
                &&& final(self)@.reviews[review_id].task_id == task_id
                &&& final(self)@.review_queue == old(self)@.review_queue.push(review_id)
                &&& final(self)@.review_queue.len() == old(self)@.review_queue.len() + 1
                &&& final(self)@.next_review_id == old(self)@.next_review_id + 1
            },
    {
        let task = match self.tasks.get(task_id) {
            Some(task) => task,
            None => {
                return Err(Error::NotFound);
            },
        };
        if !principal_is(&task.assigned_to, caller) {
            return Err(Error::NotAssignee);
        }
        if task.is_completed {
            return Err(Error::AlreadyCompleted);
        }
        let mut submitted = task.clone();
        submitted.descriptions = descriptions;
        submitted.is_completed = true;
        // Neither call fails: the record exists and the new identifier
        // cannot wait in the queue yet.
        self.tasks.update(task_id, submitted)?;
        let review_id = self.review_tasks.next_id();
        self.review_tasks.insert(review_id, ReviewTask::new(review_id, task_id));
        self.review_queue.push(review_id)?;
        proof {
            lemma_submit_task_inv(old(self)@, task_id, descriptions@, caller@);
        }
        Ok(())
    }

    /// Gives the queued review `review_task_id` to `user_account` at the
    /// time `now` and takes it out of the review queue.
    ///
    /// Refused with `NotQueued` if the review does not wait in the review
    /// queue, with `AlreadyAssigned` if it waits there but is claimed.
    pub fn assign_review_task(
        &mut self,
        review_task_id: u64,
        user_account: String,
        now: u64,
    ) -> (r: Result<(), Error>)
        requires
            old(self).wf(),
        ensures
            final(self).wf(),
            match old(self)@.assign_review_task(review_task_id, user_account@, now) {
                Ok(next) => r is Ok && final(self)@ == next,
                Err(e) => r == Err::<(), Error>(e) && final(self)@ == old(self)@,
            },
    {
        if !self.review_queue.contains(review_task_id) {
            return Err(Error::NotQueued);
        }
        let review = self.review_tasks.get(review_task_id).unwrap();
        if review.reviewed_by.is_some() {
            return Err(Error::AlreadyAssigned);
        }
        let mut claimed = review.clone();
        claimed.reviewed_by = Some(user_account);
        claimed.reviewed_at = Some(now);
        // Neither call fails: the record exists and its identifier waits.
        self.review_tasks.update(review_task_id, claimed)?;
        self.review_queue.remove(review_task_id)?;
        proof {
            lemma_assign_review_task_inv(old(self)@, review_task_id, user_account@, now);
        }
        Ok(())
    }

    /// Records the verdict of `caller` on the review `review_task_id` and
    /// returns the payment to make, if any.
    ///
    /// An acceptance asks for the fixed reward to be paid into the payout
    /// account. A rejection asks for no payment and opens the task again, at
    /// the back of the task queue.
    ///
    /// Refused with `NotReviewer` if there is no such review or it is not
    /// assigned to `caller`, with `AlreadyAdjudicated` if it has a verdict.
    /// A refusal asks for no payment.
    pub fn review_task(&mut self, review_task_id: u64, is_accepted: bool, caller: &String) -> (r:
        Result<Option<Payout>, Error>)
        requires
            old(self).wf(),
        ensures
            final(self).wf(),
            match old(self)@.review_task(review_task_id, is_accepted, caller@) {
                Ok(next) => {
                    &&& r is Ok
                    &&& final(self)@ == next
                    &&& payout_view(r->Ok_0) == old(self)@.payout(is_accepted)
                },
                Err(e) => r == Err::<Option<Payout>, Error>(e) && final(self)@ == old(self)@,
            },
            r is Ok && !is_accepted ==> {
                let task_id = old(self)@.reviews[review_task_id].task_id;
                &&& !old(self)@.task_queue.contains(task_id)
                &&& final(self)@.task_queue == old(self)@.task_queue.push(task_id)
            },
    {
        let review = match self.review_tasks.get(review_task_id) {
            Some(review) => review,
            None => {
                return Err(Error::NotReviewer);
            },
        };
        if !principal_is(&review.reviewed_by, caller) {
            return Err(Error::NotReviewer);
        }
        if review.is_adjudicated {
            return Err(Error::AlreadyAdjudicated);
        }
        let task_id = review.task_id;
        let mut decided = review.clone();
        decided.is_accepted = is_accepted;
        decided.is_adjudicated = true;
        // None of the calls below fails: the records exist, and a task under
        // review has a worker, so it does not wait in the task queue.
        self.review_tasks.update(review_task_id, decided)?;
        let payout = if is_accepted {
            Some(Payout { amount: REWARD, account: self.payout_account.clone() })
        } else {
            let mut reopened = self.tasks.get(task_id).unwrap().clone();
            reopened.assigned_to = None;
            reopened.assigned_at = None;
            reopened.is_completed = false;
            self.tasks.update(task_id, reopened)?;
            self.task_queue.push(task_id)?;
            None
        };
        proof {
            lemma_review_task_inv(old(self)@, review_task_id, is_accepted, caller@);
        }
        Ok(payout)
    }

    /// The identifier that the next published task will get.
    pub fn task_counter(&self) -> (id: u64)
        ensures
            id == self@.next_task_id,
    {
        self.tasks.peek_id()
    }

    /// The identifier that the next review will get.
    pub fn review_counter(&self) -> (id: u64)
        ensures
            id == self@.next_review_id,
    {
        self.review_tasks.peek_id()
    }

    /// The account that rewards are paid into.
    pub fn payout_account(&self) -> (account: String)
        ensures
            account@ == self@.payout_account,
    {
        self.payout_account.clone()
    }

    /// The identifiers in the task queue, front to back.
    pub fn get_task_queue(&self) -> (ids: Vec<u64>)
        ensures
            ids@ == self@.task_queue,
    {
        self.task_queue.snapshot()
    }

    /// The identifiers in the review queue, front to back.
    pub fn get_review_queue(&self) -> (ids: Vec<u64>)
        ensures
            ids@ == self@.review_queue,
    {
        self.review_queue.snapshot()
    }

    /// A copy of the task `task_id`, if there is one.
    pub fn get_task(&self, task_id: u64) -> (found: Option<Task>)
        ensures
            match found {
                Some(task) => self@.tasks.contains_key(task_id) && task@ == self@.tasks[task_id],
                None => !self@.tasks.contains_key(task_id),
            },
    {
        match self.tasks.get(task_id) {
            Some(task) => Some(task.clone()),
            None => None,
        }
    }

    /// A copy of the review `review_task_id`, if there is one.
    pub fn get_review_task(&self, review_task_id: u64) -> (found: Option<ReviewTask>)
        ensures
            match found {
                Some(review) => self@.reviews.contains_key(review_task_id) && review@
                    == self@.reviews[review_task_id],
                None => !self@.reviews.contains_key(review_task_id),
            },
    {
        match self.review_tasks.get(review_task_id) {
            Some(review) => Some(review.clone()),
            None => None,
        }
    }

    /// How many tasks wait in the task queue.
    pub fn get_task_queue_len(&self) -> (n: u64)
        ensures
            n == self@.task_queue.len(),
    {
        self.task_queue.len()
    }

    /// How many reviews wait in the review queue.
    pub fn get_review_queue_len(&self) -> (n: u64)
        ensures
            n == self@.review_queue.len(),
    {
        self.review_queue.len()
    }
}

} // verus!
