use vstd::prelude::*;

use crate::model::State;
use crate::queue::lemma_appended;
use crate::record::{ReviewTask, Task};
use crate::store::record_map;

verus! {

/// The pipeline laid out as plain data, as a host keeps it between calls:
/// the records in the order of their identifiers and the two queues front
/// to back.
#[derive(Debug, PartialEq, Eq)]
pub struct Snapshot {
    pub tasks: Vec<Task>,
    pub review_tasks: Vec<ReviewTask>,
    pub task_queue: Vec<u64>,
    pub review_queue: Vec<u64>,
    pub payout_account: String,
}

impl View for Snapshot {
    type V = State;

    open spec fn view(&self) -> State {
        State {
            tasks: record_map(Seq::new(self.tasks@.len(), |i: int| self.tasks@[i]@)),
            reviews: record_map(
                Seq::new(self.review_tasks@.len(), |i: int| self.review_tasks@[i]@),
            ),
            task_queue: self.task_queue@,
            review_queue: self.review_queue@,
            next_task_id: self.tasks@.len(),
            next_review_id: self.review_tasks@.len(),
            payout_account: self.payout_account@,
        }
    }
}

/// The task at place `i` has the identifier `i` and is consistent in itself.
spec fn task_fits(tasks: Seq<Task>, i: int) -> bool {
    tasks[i].id == i && tasks[i]@.consistent()
}

/// The review at place `i` has the identifier `i`, is consistent in itself
/// and is about one of the tasks, a completed one if it has no verdict.
spec fn review_fits(reviews: Seq<ReviewTask>, tasks: Seq<Task>, i: int) -> bool {
    let review = reviews[i];
    &&& review.id == i
    &&& review@.consistent()
    &&& review.task_id < tasks.len()
    &&& !review.is_adjudicated ==> tasks[review.task_id as int].is_completed
}

/// The review at place `i` has no verdict and is about the task `task_id`.
spec fn open_review_of(reviews: Seq<ReviewTask>, i: int, task_id: int) -> bool {
    !reviews[i].is_adjudicated && reviews[i].task_id == task_id
}

/// One of the first `upto` reviews has no verdict and is about `task_id`.
spec fn under_review(reviews: Seq<ReviewTask>, upto: int, task_id: int) -> bool {
    exists|i: int| 0 <= i < upto && open_review_of(reviews, i, task_id)
}

/// No two of the first `upto` reviews without a verdict are about the same
/// task.
spec fn reviews_apart(reviews: Seq<ReviewTask>, upto: int) -> bool {
    forall|a: int, b: int, task_id: int|
        0 <= a < upto && 0 <= b < upto && #[trigger] open_review_of(reviews, a, task_id)
            && #[trigger] open_review_of(reviews, b, task_id) ==> a == b
}

/// `queue` holds, once each, exactly the identifiers whose flag is set.
spec fn queue_fits(queue: Seq<u64>, pending: Seq<bool>) -> bool {
    &&& queue.no_duplicates()
    &&& forall|id: u64| #[trigger]
        queue.contains(id) <==> id < pending.len() && pending[id as int]
}

/// One flag for each task: whether nobody has claimed it.
spec fn open_flags(tasks: Seq<Task>) -> Seq<bool> {
    Seq::new(tasks.len(), |i: int| tasks[i]@.is_open())
}

/// One flag for each review: whether nobody has claimed it.
spec fn pending_flags(reviews: Seq<ReviewTask>) -> Seq<bool> {
    Seq::new(reviews.len(), |i: int| reviews[i]@.is_pending())
}

impl Snapshot {
    /// Validity, said of the data as it lies: place by place.
    spec fn fits(&self) -> bool {
        &&& forall|i: int| 0 <= i < self.tasks@.len() ==> task_fits(self.tasks@, i)
        &&& forall|i: int|
            0 <= i < self.review_tasks@.len() ==> review_fits(self.review_tasks@, self.tasks@, i)
        &&& reviews_apart(self.review_tasks@, self.review_tasks@.len() as int)
        &&& queue_fits(self.task_queue@, open_flags(self.tasks@))
        &&& queue_fits(self.review_queue@, pending_flags(self.review_tasks@))
    }

    /// The data fits place by place exactly when the state it describes is
    /// valid.
    proof fn lemma_fits_iff_valid(&self)
        ensures
            self.fits() <==> self@.inv(),
    {
        let s = self@;
        let tasks = self.tasks@;
        let reviews = self.review_tasks@;
        assert(tasks.len() == self.tasks.len() && reviews.len() == self.review_tasks.len());
        assert forall|id: u64| s.tasks.contains_key(id) implies #[trigger] s.tasks[id]
            == tasks[id as int]@ by {}
        assert forall|id: u64| s.reviews.contains_key(id) implies #[trigger] s.reviews[id]
            == reviews[id as int]@ by {}
        if self.fits() {
            assert(s.tasks_inv()) by {
                assert forall|id: u64| s.tasks.contains_key(id) implies (#[trigger] s.tasks[id]).id
                    == id && s.tasks[id].consistent() by {
                    assert(task_fits(tasks, id as int));
                }
            }
            assert(s.reviews_inv() && s.open_reviews_inv()) by {
                assert forall|id: u64| s.reviews.contains_key(id) implies {
                    let review = #[trigger] s.reviews[id];
                    &&& review.id == id
                    &&& review.consistent()
                    &&& s.tasks.contains_key(review.task_id)
                    &&& !review.is_adjudicated ==> s.tasks[review.task_id].is_completed
                } by {
                    assert(review_fits(reviews, tasks, id as int));
                }
                assert forall|a: u64, b: u64|
                    s.reviews.contains_key(a) && s.reviews.contains_key(b) && !(
                    #[trigger] s.reviews[a]).is_adjudicated && !(
                    #[trigger] s.reviews[b]).is_adjudicated && s.reviews[a].task_id
                        == s.reviews[b].task_id implies a == b by {
                    let task_id = reviews[a as int].task_id as int;
                    assert(open_review_of(reviews, a as int, task_id));
                    assert(open_review_of(reviews, b as int, task_id));
                }
            }
            assert(s.task_queue_inv());
            assert(s.review_queue_inv());
        }
        if s.inv() {
            assert forall|i: int| 0 <= i < tasks.len() implies task_fits(tasks, i) by {
                assert(s.tasks[i as u64] == tasks[i]@);
            }
            assert forall|i: int| 0 <= i < reviews.len() implies review_fits(reviews, tasks, i) by {
                let review = reviews[i];
                assert(s.reviews[i as u64] == review@);
                assert(s.tasks[review.task_id] == tasks[review.task_id as int]@);
            }
            assert(reviews_apart(reviews, reviews.len() as int)) by {
                assert forall|a: int, b: int, task_id: int|
                    0 <= a < reviews.len() && 0 <= b < reviews.len() && #[trigger] open_review_of(
                        reviews,
                        a,
                        task_id,
                    ) && #[trigger] open_review_of(reviews, b, task_id) implies a == b by {
                    assert(s.reviews[a as u64] == reviews[a]@);
                    assert(s.reviews[b as u64] == reviews[b]@);
                }
            }
            assert(queue_fits(self.task_queue@, open_flags(tasks)));
            assert(queue_fits(self.review_queue@, pending_flags(reviews)));
        }
    }

    /// Whether the data describes a state that the operations can work on:
    /// the records stand at their identifiers, each queue holds exactly the
    /// unclaimed records, once each, and the reviews fit the tasks.
    pub fn is_valid(&self) -> (ok: bool)
        ensures
            ok == self@.inv(),
    {
        proof {
            self.lemma_fits_iff_valid();
        }
        if !tasks_in_place(&self.tasks) {
            return false;
        }
        if !reviews_in_place(&self.review_tasks, &self.tasks) {
            return false;
        }
        if !open_reviews_apart(&self.review_tasks, &self.tasks) {
            return false;
        }
        if !queue_matches(&self.task_queue, &open_tasks(&self.tasks)) {
            return false;
        }
        queue_matches(&self.review_queue, &pending_reviews(&self.review_tasks))
    }
}

/// Whether each task stands at the place of its identifier and is
/// consistent in itself.
fn tasks_in_place(tasks: &Vec<Task>) -> (ok: bool)
    ensures
        ok == (forall|i: int| 0 <= i < tasks@.len() ==> task_fits(tasks@, i)),
{
    let mut i: usize = 0;
    while i < tasks.len()
        invariant
            i <= tasks@.len(),
            forall|j: int| 0 <= j < i ==> task_fits(tasks@, j),
        decreases tasks@.len() - i,
    {
        let task = &tasks[i];
        if task.id != i as u64 || !task.is_consistent() {
            assert(!task_fits(tasks@, i as int));
            return false;
        }
        i += 1;
    }
    true
}

/// Whether each review stands at the place of its identifier, is consistent
/// in itself and is about one of the `tasks`, a completed one if the review
/// has no verdict.
fn reviews_in_place(reviews: &Vec<ReviewTask>, tasks: &Vec<Task>) -> (ok: bool)
    ensures
        ok == (forall|i: int| 0 <= i < reviews@.len() ==> review_fits(reviews@, tasks@, i)),
{
    let mut i: usize = 0;
    while i < reviews.len()
        invariant
            i <= reviews@.len(),
            forall|j: int| 0 <= j < i ==> review_fits(reviews@, tasks@, j),
        decreases reviews@.len() - i,
    {
        let review = &reviews[i];
        if review.id != i as u64 || !review.is_consistent() || review.task_id
            >= tasks.len() as u64 {
            assert(!review_fits(reviews@, tasks@, i as int));
            return false;
        }
        if !review.is_adjudicated && !tasks[review.task_id as usize].is_completed {
            assert(!review_fits(reviews@, tasks@, i as int));
            return false;
        }
        i += 1;
    }
    true
}

/// `count` flags, none of them set.
fn cleared_flags(count: usize) -> (flags: Vec<bool>)
    ensures
        flags@.len() == count,
        forall|i: int| 0 <= i < count ==> !flags@[i],
{
    let mut flags: Vec<bool> = Vec::new();
    while flags.len() < count
        invariant
            flags@.len() <= count,
            forall|i: int| 0 <= i < flags@.len() ==> !flags@[i],
        decreases count - flags@.len(),
    {
        flags.push(false);
    }
    flags
}

/// Looking at one review more adds at most its own task to the tasks under
/// review.
proof fn lemma_one_more_review(reviews: Seq<ReviewTask>, upto: int, task_id: int)
    requires
        0 <= upto < reviews.len(),
    ensures
        under_review(reviews, upto + 1, task_id) <==> under_review(reviews, upto, task_id)
            || open_review_of(reviews, upto, task_id),
{
    if under_review(reviews, upto, task_id) {
        let i = choose|i: int| 0 <= i < upto && open_review_of(reviews, i, task_id);
        assert(0 <= i < upto + 1 && open_review_of(reviews, i, task_id));
    }
}

/// Whether no two reviews without a verdict are about the same task.
fn open_reviews_apart(reviews: &Vec<ReviewTask>, tasks: &Vec<Task>) -> (ok: bool)
    requires
        forall|i: int| 0 <= i < reviews@.len() ==> review_fits(reviews@, tasks@, i),
    ensures
        ok == reviews_apart(reviews@, reviews@.len() as int),
{
    let task_count: usize = tasks.len();
    let mut taken = cleared_flags(task_count);
    let mut i: usize = 0;
    while i < reviews.len()
        invariant
            i <= reviews@.len(),
            task_count == tasks@.len(),
            taken@.len() == task_count,
            forall|k: int| 0 <= k < reviews@.len() ==> review_fits(reviews@, tasks@, k),
            forall|t: int| 0 <= t < task_count ==> taken@[t] == under_review(reviews@, i as int, t),
            reviews_apart(reviews@, i as int),
        decreases reviews@.len() - i,
    {
        let review = &reviews[i];
        assert(review_fits(reviews@, tasks@, i as int));
        if !review.is_adjudicated {
            let task_id: usize = review.task_id as usize;
            if taken[task_id] {
                proof {
                    let j = choose|j: int|
                        0 <= j < i && open_review_of(reviews@, j, task_id as int);
                    assert(open_review_of(reviews@, i as int, task_id as int));
                }
                return false;
            }
            taken.set(task_id, true);
        }
        proof {
            assert forall|t: int| 0 <= t < task_count implies taken@[t] == under_review(
                reviews@,
                i + 1,
                t,
            ) by {
                lemma_one_more_review(reviews@, i as int, t);
            }
        }
        i += 1;
    }
    true
}

/// Whether `queue` holds, once each, exactly the identifiers whose flag in
/// `pending` is set.
fn queue_matches(queue: &Vec<u64>, pending: &Vec<bool>) -> (ok: bool)
    ensures
        ok == queue_fits(queue@, pending@),
{
    let count: usize = pending.len();
    let mut queued = cleared_flags(count);
    let mut k: usize = 0;
    while k < queue.len()
        invariant
            k <= queue@.len(),
            count == pending@.len(),
            queued@.len() == count,
            queue@.take(k as int).no_duplicates(),
            forall|id: u64| #[trigger]
                queue@.take(k as int).contains(id) ==> id < count && pending@[id as int],
            forall|id: u64|
                id < count ==> queued@[id as int] == #[trigger] queue@.take(k as int).contains(id),
        decreases queue@.len() - k,
    {
        let entry: u64 = queue[k];
        let ghost seen = queue@.take(k as int);
        assert(queue@.take(k + 1) == seen.push(entry));
        if entry >= count as u64 || !pending[entry as usize] {
            assert(queue@.contains(entry));
            return false;
        }
        if queued[entry as usize] {
            proof {
                assert(seen.contains(entry));
                let j = choose|j: int| 0 <= j < seen.len() && seen[j] == entry;
                assert(queue@[j] == queue@[k as int]);
            }
            return false;
        }
        queued.set(entry as usize, true);
        proof {
            lemma_appended(seen, entry);
        }
        k += 1;
    }
    assert(queue@.take(k as int) == queue@);
    let mut id: usize = 0;
    while id < count
        invariant
            id <= count,
            count == pending@.len(),
            queued@.len() == count,
            forall|x: u64| x < count ==> queued@[x as int] == #[trigger] queue@.contains(x),
            forall|x: u64| x < id && pending@[x as int] ==> #[trigger] queue@.contains(x),
        decreases count - id,
    {
        if pending[id] && !queued[id] {
            assert(!queue@.contains(id as u64));
            return false;
        }
        id += 1;
    }
    true
}

/// One flag for each task: whether nobody has claimed it.
fn open_tasks(tasks: &Vec<Task>) -> (flags: Vec<bool>)
    ensures
        flags@ == open_flags(tasks@),
{
    let mut flags: Vec<bool> = Vec::new();
    while flags.len() < tasks.len()
        invariant
            flags@.len() <= tasks@.len(),
            forall|i: int| 0 <= i < flags@.len() ==> flags@[i] == tasks@[i]@.is_open(),
        decreases tasks@.len() - flags@.len(),
    {
        let open: bool = tasks[flags.len()].assigned_to.is_none();
        flags.push(open);
    }
    assert(flags@ =~= open_flags(tasks@));
    flags
}

/// One flag for each review: whether nobody has claimed it.
fn pending_reviews(reviews: &Vec<ReviewTask>) -> (flags: Vec<bool>)
    ensures
        flags@ == pending_flags(reviews@),
{
    let mut flags: Vec<bool> = Vec::new();
    while flags.len() < reviews.len()
        invariant
            flags@.len() <= reviews@.len(),
            forall|i: int| 0 <= i < flags@.len() ==> flags@[i] == reviews@[i]@.is_pending(),
        decreases reviews@.len() - flags@.len(),
    {
        let pending: bool = reviews[flags.len()].reviewed_by.is_none();
        flags.push(pending);
    }
    assert(flags@ =~= pending_flags(reviews@));
    flags
}

} // verus!
