use task_manager::{Error, Payout, TaskManager, REWARD};

fn name(s: &str) -> String {
    s.to_string()
}

fn manager() -> TaskManager {
    TaskManager::new(name("treasury.near"))
}

/// A manager in which task 0 was published, claimed by alice and handed in,
/// and review 0 was claimed by bob.
fn manager_with_claimed_review() -> TaskManager {
    let mut m = manager();
    assert_eq!(m.add_task(name("img1")), 0);
    assert_eq!(m.assign_task(0, name("alice"), 100), Ok(()));
    assert_eq!(m.submit_task(0, name("done"), &name("alice")), Ok(()));
    assert_eq!(m.assign_review_task(0, name("bob"), 200), Ok(()));
    m
}

#[test]
fn new_manager_holds_nothing() {
    let m = manager();
    assert_eq!(m.get_task_queue(), Vec::<u64>::new());
    assert_eq!(m.get_review_queue(), Vec::<u64>::new());
    assert_eq!(m.get_task_queue_len(), 0);
    assert_eq!(m.get_review_queue_len(), 0);
    assert_eq!(m.get_task(0), None);
    assert_eq!(m.get_review_task(0), None);
    assert_eq!(m.task_counter(), 0);
    assert_eq!(m.review_counter(), 0);
    assert_eq!(m.payout_account(), "treasury.near");
}

#[test]
fn published_task_is_open_and_queued() {
    let mut m = manager();
    let id = m.add_task(name("img1"));
    assert_eq!(id, 0);
    let task = m.get_task(id).expect("the task was published");
    assert_eq!(task.id, 0);
    assert_eq!(task.image_url, "img1");
    assert_eq!(task.descriptions, "");
    assert_eq!(task.assigned_to, None);
    assert_eq!(task.assigned_at, None);
    assert_eq!(task.reviewed_by, None);
    assert_eq!(task.reviewed_at, None);
    assert!(!task.is_completed);
    assert!(m.get_task_queue().contains(&id));
    assert_eq!(m.get_task_queue_len(), 1);
}

#[test]
fn task_ids_count_up_from_zero() {
    let mut m = manager();
    assert_eq!(m.add_task(name("a")), 0);
    assert_eq!(m.add_task(name("b")), 1);
    assert_eq!(m.add_task(name("c")), 2);
    assert_eq!(m.get_task_queue(), vec![0, 1, 2]);
    assert_eq!(m.task_counter(), 3);
}

#[test]
fn assigning_an_unqueued_task_changes_nothing() {
    let mut m = manager();
    assert_eq!(m.add_task(name("img1")), 0);
    let task_before = m.get_task(0);
    assert_eq!(m.assign_task(5, name("alice"), 100), Err(Error::NotQueued));
    assert_eq!(m.get_task_queue(), vec![0]);
    assert_eq!(m.get_task(0), task_before);
    assert_eq!(m.get_task(5), None);
}

#[test]
fn assigned_task_leaves_the_queue_in_order() {
    let mut m = manager();
    for url in ["a", "b", "c"] {
        m.add_task(name(url));
    }
    assert_eq!(m.assign_task(1, name("alice"), 100), Ok(()));
    assert_eq!(m.get_task_queue(), vec![0, 2]);
    let task = m.get_task(1).expect("the task exists");
    assert_eq!(task.assigned_to, Some(name("alice")));
    assert_eq!(task.assigned_at, Some(100));
    assert!(!task.is_completed);
}

#[test]
fn second_assignment_is_refused_and_keeps_the_first() {
    let mut m = manager();
    assert_eq!(m.add_task(name("img1")), 0);
    assert_eq!(m.assign_task(0, name("alice"), 100), Ok(()));
    assert!(!m.get_task_queue().contains(&0));
    assert_eq!(m.assign_task(0, name("bob"), 101), Err(Error::NotQueued));
    let task = m.get_task(0).expect("the task exists");
    assert_eq!(task.assigned_to, Some(name("alice")));
    assert_eq!(task.assigned_at, Some(100));
}

#[test]
fn submitting_an_unknown_task_is_refused() {
    let mut m = manager();
    assert_eq!(m.submit_task(0, name("done"), &name("alice")), Err(Error::NotFound));
    assert_eq!(m.get_review_queue_len(), 0);
}

#[test]
fn submitting_for_somebody_else_changes_nothing() {
    let mut m = manager();
    assert_eq!(m.add_task(name("img1")), 0);
    assert_eq!(m.assign_task(0, name("alice"), 100), Ok(()));
    let task_before = m.get_task(0);
    assert_eq!(m.submit_task(0, name("done"), &name("mallory")), Err(Error::NotAssignee));
    assert_eq!(m.get_task(0), task_before);
    assert_eq!(m.get_review_queue(), Vec::<u64>::new());
    assert_eq!(m.review_counter(), 0);
}

#[test]
fn submitting_an_unassigned_task_is_refused() {
    let mut m = manager();
    assert_eq!(m.add_task(name("img1")), 0);
    assert_eq!(m.submit_task(0, name("done"), &name("alice")), Err(Error::NotAssignee));
    assert_eq!(m.get_task_queue(), vec![0]);
}

#[test]
fn submission_completes_the_task_and_opens_a_review() {
    let mut m = manager();
    assert_eq!(m.add_task(name("img1")), 0);
    assert_eq!(m.assign_task(0, name("alice"), 100), Ok(()));
    let len_before = m.get_review_queue_len();
    assert_eq!(m.get_review_task(0), None);
    assert_eq!(m.submit_task(0, name("a cat"), &name("alice")), Ok(()));
    assert_eq!(m.get_review_queue_len(), len_before + 1);
    assert_eq!(m.get_review_queue(), vec![0]);
    let task = m.get_task(0).expect("the task exists");
    assert_eq!(task.descriptions, "a cat");
    assert!(task.is_completed);
    assert_eq!(task.assigned_to, Some(name("alice")));
    assert_eq!(task.assigned_at, Some(100));
    let review = m.get_review_task(0).expect("the review was opened");
    assert_eq!(review.id, 0);
    assert_eq!(review.task_id, 0);
    assert_eq!(review.reviewed_by, None);
    assert_eq!(review.reviewed_at, None);
    assert!(!review.is_accepted);
    assert!(!review.is_adjudicated);
}

#[test]
fn every_submission_gets_a_fresh_review_id() {
    let mut m = manager();
    for url in ["a", "b", "c"] {
        m.add_task(name(url));
    }
    for id in [2u64, 0, 1] {
        assert_eq!(m.assign_task(id, name("alice"), 100), Ok(()));
    }
    assert_eq!(m.submit_task(2, name("x"), &name("alice")), Ok(()));
    assert_eq!(m.submit_task(0, name("y"), &name("alice")), Ok(()));
    assert_eq!(m.submit_task(1, name("z"), &name("alice")), Ok(()));
    assert_eq!(m.get_review_queue(), vec![0, 1, 2]);
    assert_eq!(m.get_review_task(0).map(|r| r.task_id), Some(2));
    assert_eq!(m.get_review_task(1).map(|r| r.task_id), Some(0));
    assert_eq!(m.get_review_task(2).map(|r| r.task_id), Some(1));
    assert_eq!(m.review_counter(), 3);
}

#[test]
fn submitting_twice_is_refused() {
    let mut m = manager();
    assert_eq!(m.add_task(name("img1")), 0);
    assert_eq!(m.assign_task(0, name("alice"), 100), Ok(()));
    assert_eq!(m.submit_task(0, name("done"), &name("alice")), Ok(()));
    assert_eq!(m.submit_task(0, name("again"), &name("alice")), Err(Error::AlreadyCompleted));
    assert_eq!(m.get_review_queue(), vec![0]);
    assert_eq!(m.get_task(0).map(|t| t.descriptions), Some(name("done")));
}

#[test]
fn assigning_an_unqueued_review_is_refused() {
    let mut m = manager();
    assert_eq!(m.assign_review_task(0, name("bob"), 200), Err(Error::NotQueued));
    let mut m = manager_with_claimed_review();
    assert_eq!(m.assign_review_task(0, name("carol"), 201), Err(Error::NotQueued));
    let review = m.get_review_task(0).expect("the review exists");
    assert_eq!(review.reviewed_by, Some(name("bob")));
    assert_eq!(review.reviewed_at, Some(200));
}

#[test]
fn assigned_review_leaves_the_queue() {
    let m = manager_with_claimed_review();
    assert_eq!(m.get_review_queue(), Vec::<u64>::new());
    let review = m.get_review_task(0).expect("the review exists");
    assert_eq!(review.reviewed_by, Some(name("bob")));
    assert_eq!(review.reviewed_at, Some(200));
    assert!(!review.is_adjudicated);
}

#[test]
fn acceptance_asks_for_the_reward() {
    let mut m = manager_with_claimed_review();
    let payout = m.review_task(0, true, &name("bob"));
    assert_eq!(
        payout,
        Ok(Some(Payout {
            amount: 1_000_000_000_000_000_000_000_000,
            account: name("treasury.near"),
        }))
    );
    assert_eq!(REWARD, 1_000_000_000_000_000_000_000_000);
    let review = m.get_review_task(0).expect("the review exists");
    assert!(review.is_accepted);
    assert!(review.is_adjudicated);
    let task = m.get_task(0).expect("the task exists");
    assert!(task.is_completed);
    assert_eq!(task.assigned_to, Some(name("alice")));
    assert_eq!(m.get_task_queue(), Vec::<u64>::new());
}

#[test]
fn accepting_twice_pays_once() {
    let mut m = manager_with_claimed_review();
    let first = m.review_task(0, true, &name("bob"));
    assert!(matches!(first, Ok(Some(_))));
    let review_before = m.get_review_task(0);
    assert_eq!(m.review_task(0, true, &name("bob")), Err(Error::AlreadyAdjudicated));
    assert_eq!(m.review_task(0, false, &name("bob")), Err(Error::AlreadyAdjudicated));
    assert_eq!(m.get_review_task(0), review_before);
    assert_eq!(m.get_task_queue(), Vec::<u64>::new());
}

#[test]
fn rejection_requeues_the_task_exactly_once() {
    let mut m = manager_with_claimed_review();
    assert_eq!(m.add_task(name("img2")), 1);
    assert_eq!(m.review_task(0, false, &name("bob")), Ok(None));
    let queue = m.get_task_queue();
    assert_eq!(queue, vec![1, 0]);
    assert_eq!(queue.iter().filter(|id| **id == 0).count(), 1);
    let task = m.get_task(0).expect("the task is kept");
    assert_eq!(task.assigned_to, None);
    assert_eq!(task.assigned_at, None);
    assert!(!task.is_completed);
    assert_eq!(task.descriptions, "done");
    let review = m.get_review_task(0).expect("the review exists");
    assert!(!review.is_accepted);
    assert!(review.is_adjudicated);
}

#[test]
fn rejecting_twice_is_refused() {
    let mut m = manager_with_claimed_review();
    assert_eq!(m.review_task(0, false, &name("bob")), Ok(None));
    assert_eq!(m.review_task(0, false, &name("bob")), Err(Error::AlreadyAdjudicated));
    assert_eq!(m.review_task(0, true, &name("bob")), Err(Error::AlreadyAdjudicated));
    assert_eq!(m.get_task_queue(), vec![0]);
}

#[test]
fn verdict_of_a_stranger_is_refused() {
    let mut m = manager_with_claimed_review();
    assert_eq!(m.review_task(0, true, &name("mallory")), Err(Error::NotReviewer));
    assert_eq!(m.review_task(7, true, &name("bob")), Err(Error::NotReviewer));
    let review = m.get_review_task(0).expect("the review exists");
    assert!(!review.is_accepted);
    assert!(!review.is_adjudicated);
}

#[test]
fn scenario_rejection_returns_task_to_queue() {
    let mut m = manager();
    assert_eq!(m.add_task(name("img1")), 0);
    assert_eq!(m.assign_task(0, name("alice"), 1), Ok(()));
    assert_eq!(m.submit_task(0, name("done"), &name("alice")), Ok(()));
    assert_eq!(m.get_review_queue(), vec![0]);
    assert_eq!(m.assign_review_task(0, name("bob"), 2), Ok(()));
    assert_eq!(m.review_task(0, false, &name("bob")), Ok(None));
    assert_eq!(m.get_task_queue(), vec![0]);
    assert_eq!(m.get_review_queue(), Vec::<u64>::new());
}

#[test]
fn scenario_resubmission_gets_a_new_review() {
    let mut m = manager();
    assert_eq!(m.add_task(name("img1")), 0);
    assert_eq!(m.assign_task(0, name("alice"), 1), Ok(()));
    assert_eq!(m.submit_task(0, name("done"), &name("alice")), Ok(()));
    assert_eq!(m.assign_review_task(0, name("bob"), 2), Ok(()));
    assert_eq!(m.review_task(0, false, &name("bob")), Ok(None));
    assert_eq!(m.assign_task(0, name("carol"), 3), Ok(()));
    assert_eq!(m.submit_task(0, name("done2"), &name("carol")), Ok(()));
    assert_eq!(m.get_review_queue(), vec![1]);
    let review = m.get_review_task(1).expect("the second review was opened");
    assert_eq!(review.id, 1);
    assert_eq!(review.task_id, 0);
    assert!(!review.is_adjudicated);
    let old_review = m.get_review_task(0).expect("the first review is kept");
    assert!(old_review.is_adjudicated);
    assert!(!old_review.is_accepted);
    assert_eq!(old_review.reviewed_by, Some(name("bob")));
    let task = m.get_task(0).expect("the task exists");
    assert_eq!(task.descriptions, "done2");
    assert_eq!(task.assigned_to, Some(name("carol")));
    assert_eq!(task.assigned_at, Some(3));
    assert!(task.is_completed);
    assert_eq!(m.review_task(0, true, &name("bob")), Err(Error::AlreadyAdjudicated));
}

#[test]
fn scenario_verdict_on_unassigned_review_is_refused() {
    let mut m = manager();
    assert_eq!(m.add_task(name("img1")), 0);
    assert_eq!(m.assign_task(0, name("alice"), 1), Ok(()));
    assert_eq!(m.submit_task(0, name("done"), &name("alice")), Ok(()));
    assert_eq!(m.review_task(0, true, &name("bob")), Err(Error::NotReviewer));
    assert_eq!(m.review_task(0, false, &name("bob")), Err(Error::NotReviewer));
    let review = m.get_review_task(0).expect("the review exists");
    assert!(!review.is_accepted);
    assert!(!review.is_adjudicated);
    assert_eq!(m.get_review_queue(), vec![0]);
    assert_eq!(m.get_task_queue(), Vec::<u64>::new());
}

#[test]
fn former_worker_cannot_submit_a_reopened_task() {
    let mut m = manager_with_claimed_review();
    assert_eq!(m.review_task(0, false, &name("bob")), Ok(None));
    assert_eq!(m.submit_task(0, name("again"), &name("alice")), Err(Error::NotAssignee));
    assert_eq!(m.get_task_queue(), vec![0]);
}
