use task_manager::{Error, ReviewTask, Snapshot, Task, TaskManager};

fn name(s: &str) -> String {
    s.to_string()
}

fn task(id: u64, worker: Option<(&str, u64)>, completed: bool) -> Task {
    let mut task = Task::new(id, format!("img{}", id));
    task.assigned_to = worker.map(|(who, _)| name(who));
    task.assigned_at = worker.map(|(_, at)| at);
    task.is_completed = completed;
    task
}

fn review(
    id: u64,
    task_id: u64,
    claimed: Option<(&str, u64)>,
    verdict: Option<bool>,
) -> ReviewTask {
    let mut review = ReviewTask::new(id, task_id);
    review.reviewed_by = claimed.map(|(who, _)| name(who));
    review.reviewed_at = claimed.map(|(_, at)| at);
    review.is_adjudicated = verdict.is_some();
    review.is_accepted = verdict == Some(true);
    review
}

/// Task 0 open, task 1 claimed, task 2 handed in with review 1 pending,
/// task 3 handed in with review 0 rejected earlier and review 2 claimed.
fn valid() -> Snapshot {
    Snapshot {
        tasks: vec![
            task(0, None, false),
            task(1, Some(("alice", 5)), false),
            task(2, Some(("alice", 6)), true),
            task(3, Some(("carol", 9)), true),
        ],
        review_tasks: vec![
            review(0, 3, Some(("bob", 7)), Some(false)),
            review(1, 2, None, None),
            review(2, 3, Some(("bob", 10)), None),
        ],
        task_queue: vec![0],
        review_queue: vec![1],
        payout_account: name("treasury.near"),
    }
}

#[test]
fn valid_snapshot_is_restored_as_it_is() {
    assert!(valid().is_valid());
    let m = TaskManager::restore(valid()).expect("the snapshot is valid");
    assert_eq!(m.get_task_queue(), vec![0]);
    assert_eq!(m.get_review_queue(), vec![1]);
    assert_eq!(m.task_counter(), 4);
    assert_eq!(m.review_counter(), 3);
    assert_eq!(m.payout_account(), "treasury.near");
    assert_eq!(m.get_task(3), Some(task(3, Some(("carol", 9)), true)));
    assert_eq!(m.get_review_task(2), Some(review(2, 3, Some(("bob", 10)), None)));
    assert_eq!(m.get_task(4), None);
    assert_eq!(m.snapshot(), valid());
}

#[test]
fn restored_manager_goes_on_working() {
    let mut m = TaskManager::restore(valid()).expect("the snapshot is valid");
    assert_eq!(m.add_task(name("img4")), 4);
    assert_eq!(m.get_task_queue(), vec![0, 4]);
    assert_eq!(m.review_task(2, false, &name("bob")), Ok(None));
    assert_eq!(m.get_task_queue(), vec![0, 4, 3]);
    assert_eq!(m.assign_review_task(1, name("dave"), 11), Ok(()));
    assert_eq!(m.submit_task(1, name("done"), &name("alice")), Ok(()));
    assert_eq!(m.get_review_queue(), vec![3]);
    assert_eq!(m.review_task(0, true, &name("bob")), Err(Error::AlreadyAdjudicated));
}

#[test]
fn snapshot_of_a_fresh_manager_is_empty() {
    let m = TaskManager::new(name("treasury.near"));
    let s = m.snapshot();
    assert_eq!(
        s,
        Snapshot {
            tasks: vec![],
            review_tasks: vec![],
            task_queue: vec![],
            review_queue: vec![],
            payout_account: name("treasury.near"),
        }
    );
    assert!(s.is_valid());
}

#[test]
fn snapshot_follows_the_operations() {
    let mut m = TaskManager::new(name("treasury.near"));
    m.add_task(name("img0"));
    m.add_task(name("img1"));
    assert_eq!(m.assign_task(1, name("alice"), 5), Ok(()));
    assert_eq!(m.submit_task(1, name("done"), &name("alice")), Ok(()));
    let s = m.snapshot();
    let mut handed_in = task(1, Some(("alice", 5)), true);
    handed_in.descriptions = name("done");
    assert_eq!(s.tasks, vec![task(0, None, false), handed_in]);
    assert_eq!(s.review_tasks, vec![review(0, 1, None, None)]);
    assert_eq!(s.task_queue, vec![0]);
    assert_eq!(s.review_queue, vec![0]);
    let again = TaskManager::restore(s).expect("a snapshot of a manager is valid");
    assert_eq!(again.snapshot(), m.snapshot());
}

fn refused(s: Snapshot) {
    assert!(!s.is_valid());
    assert!(TaskManager::restore(s).is_none());
}

#[test]
fn task_out_of_place_is_refused() {
    let mut s = valid();
    s.tasks[1].id = 2;
    refused(s);
}

#[test]
fn claim_without_time_is_refused() {
    let mut s = valid();
    s.tasks[1].assigned_at = None;
    refused(s);
    let mut s = valid();
    s.review_tasks[2].reviewed_at = None;
    refused(s);
}

#[test]
fn completed_task_without_worker_is_refused() {
    let mut s = valid();
    s.tasks[0].is_completed = true;
    refused(s);
}

#[test]
fn review_out_of_place_is_refused() {
    let mut s = valid();
    s.review_tasks[1].id = 5;
    refused(s);
}

#[test]
fn review_of_a_missing_task_is_refused() {
    let mut s = valid();
    s.review_tasks[0].task_id = 4;
    refused(s);
}

#[test]
fn verdict_without_claim_is_refused() {
    let mut s = valid();
    s.review_tasks[1].is_adjudicated = true;
    refused(s);
}

#[test]
fn acceptance_without_verdict_is_refused() {
    let mut s = valid();
    s.review_tasks[2].is_accepted = true;
    refused(s);
}

#[test]
fn open_review_of_an_uncompleted_task_is_refused() {
    let mut s = valid();
    s.review_tasks[1].task_id = 1;
    refused(s);
}

#[test]
fn two_open_reviews_of_one_task_are_refused() {
    let mut s = valid();
    s.review_tasks[1].task_id = 3;
    refused(s);
}

#[test]
fn queued_task_that_is_claimed_is_refused() {
    let mut s = valid();
    s.task_queue = vec![0, 1];
    refused(s);
}

#[test]
fn open_task_that_is_not_queued_is_refused() {
    let mut s = valid();
    s.task_queue = vec![];
    refused(s);
}

#[test]
fn task_queued_twice_is_refused() {
    let mut s = valid();
    s.task_queue = vec![0, 0];
    refused(s);
}

#[test]
fn unknown_id_in_a_queue_is_refused() {
    let mut s = valid();
    s.task_queue = vec![0, 9];
    refused(s);
    let mut s = valid();
    s.review_queue = vec![1, 3];
    refused(s);
}

#[test]
fn queued_review_that_is_claimed_is_refused() {
    let mut s = valid();
    s.review_queue = vec![1, 2];
    refused(s);
}

#[test]
fn pending_review_that_is_not_queued_is_refused() {
    let mut s = valid();
    s.review_queue = vec![];
    refused(s);
}
