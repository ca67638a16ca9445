use vstd::prelude::*;

verus! {

/// What an optional principal stands for in contracts: its characters.
pub open spec fn principal_view(p: Option<String>) -> Option<Seq<char>> {
    match p {
        Some(name) => Some(name@),
        None => None,
    }
}

/// A copy of an optional principal.
pub(crate) fn copy_principal(p: &Option<String>) -> (copy: Option<String>)
    ensures
        copy == *p,
{
    match p {
        Some(name) => Some(name.clone()),
        None => None,
    }
}

/// Whether `p` names exactly `who`.
pub(crate) fn principal_is(p: &Option<String>, who: &String) -> (same: bool)
    ensures
        same == (principal_view(*p) == Some(who@)),
{
    match p {
        Some(name) => *name == *who,
        None => false,
    }
}

/// One unit of work.
#[derive(Debug, PartialEq, Eq)]
pub struct Task {
    /// Given at creation, never changed and never given again.
    pub id: u64,
    /// Where the payload lies.
    pub image_url: String,
    /// What the worker handed in; empty until a submission.
    pub descriptions: String,
    /// The worker who claimed the task.
    pub assigned_to: Option<String>,
    /// When the task was claimed.
    pub assigned_at: Option<u64>,
    /// A note on the task of who reviewed it last. The pipeline keeps this
    /// on the review records and leaves the note as it finds it.
    pub reviewed_by: Option<String>,
    /// When that note was made.
    pub reviewed_at: Option<u64>,
    /// Whether a submission is in and stands.
    pub is_completed: bool,
}

/// A `Task` as contracts see it.
pub struct TaskView {
    pub id: u64,
    pub image_url: Seq<char>,
    pub descriptions: Seq<char>,
    pub assigned_to: Option<Seq<char>>,
    pub assigned_at: Option<u64>,
    pub reviewed_by: Option<Seq<char>>,
    pub reviewed_at: Option<u64>,
    pub is_completed: bool,
}

impl TaskView {
    /// The task as it is published: nobody has it and nothing is handed in.
    pub open spec fn open(id: u64, image_url: Seq<char>) -> TaskView {
        TaskView {
            id,
            image_url,
            descriptions: Seq::empty(),
            assigned_to: None,
            assigned_at: None,
            reviewed_by: None,
            reviewed_at: None,
            is_completed: false,
        }
    }

    /// Nobody has claimed the task.
    pub open spec fn is_open(self) -> bool {
        self.assigned_to is None
    }

    /// The claim and its time come and go together, and only a claimed task
    /// can be completed.
    pub open spec fn consistent(self) -> bool {
        &&& self.assigned_to is Some <==> self.assigned_at is Some
        &&& self.is_completed ==> self.assigned_to is Some
    }

    /// The task once `worker` has claimed it at `now`.
    pub open spec fn claimed(self, worker: Seq<char>, now: u64) -> TaskView {
        TaskView { assigned_to: Some(worker), assigned_at: Some(now), ..self }
    }

    /// The task once `descriptions` is handed in.
    pub open spec fn submitted(self, descriptions: Seq<char>) -> TaskView {
        TaskView { descriptions, is_completed: true, ..self }
    }

    /// The task once its submission is rejected: open again, for anybody.
    pub open spec fn reopened(self) -> TaskView {
        TaskView { assigned_to: None, assigned_at: None, is_completed: false, ..self }
    }
}

impl View for Task {
    type V = TaskView;

    open spec fn view(&self) -> TaskView {
        TaskView {
            id: self.id,
            image_url: self.image_url@,
            descriptions: self.descriptions@,
            assigned_to: principal_view(self.assigned_to),
            assigned_at: self.assigned_at,
            reviewed_by: principal_view(self.reviewed_by),
            reviewed_at: self.reviewed_at,
            is_completed: self.is_completed,
        }
    }
}

impl Clone for Task {
    fn clone(&self) -> (copy: Task)
        ensures
            copy == *self,
    {
        Task {
            id: self.id,
            image_url: self.image_url.clone(),
            descriptions: self.descriptions.clone(),
            assigned_to: copy_principal(&self.assigned_to),
            assigned_at: self.assigned_at,
            reviewed_by: copy_principal(&self.reviewed_by),
            reviewed_at: self.reviewed_at,
            is_completed: self.is_completed,
        }
    }
}

impl Task {
    /// Whether the claim and its time are there together, and the task is
    /// completed only if it is claimed.
    pub fn is_consistent(&self) -> (ok: bool)
        ensures
            ok == self@.consistent(),
    {
        self.assigned_to.is_some() == self.assigned_at.is_some() && (!self.is_completed
            || self.assigned_to.is_some())
    }

    /// A task as it is published.
    pub fn new(id: u64, image_url: String) -> (task: Task)
        ensures
            task@ == TaskView::open(id, image_url@),
    {
        Task {
            id,
            image_url,
            descriptions: String::new(),
            assigned_to: None,
            assigned_at: None,
            reviewed_by: None,
            reviewed_at: None,
            is_completed: false,
        }
    }
}

/// One round of review for a submitted task.
#[derive(Debug, PartialEq, Eq)]
pub struct ReviewTask {
    /// Given at creation, never changed and never given again.
    pub id: u64,
    /// The task whose submission is under review.
    pub task_id: u64,
    /// Who claimed the review.
    pub reviewed_by: Option<String>,
    /// When the review was claimed.
    pub reviewed_at: Option<u64>,
    /// The verdict; it means something only once `is_adjudicated` holds.
    pub is_accepted: bool,
    /// Whether a verdict has been given.
    pub is_adjudicated: bool,
}

/// A `ReviewTask` as contracts see it.
pub struct ReviewTaskView {
    pub id: u64,
    pub task_id: u64,
    pub reviewed_by: Option<Seq<char>>,
    pub reviewed_at: Option<u64>,
    pub is_accepted: bool,
    pub is_adjudicated: bool,
}

impl ReviewTaskView {
    /// The review as a submission creates it: nobody has it, no verdict.
    pub open spec fn pending(id: u64, task_id: u64) -> ReviewTaskView {
        ReviewTaskView {
            id,
            task_id,
            reviewed_by: None,
            reviewed_at: None,
            is_accepted: false,
            is_adjudicated: false,
        }
    }

    /// Nobody has claimed the review.
    pub open spec fn is_pending(self) -> bool {
        self.reviewed_by is None
    }

    /// The claim and its time come and go together, only a claimed review
    /// gets a verdict, and only a verdict can be an acceptance.
    pub open spec fn consistent(self) -> bool {
        &&& self.reviewed_by is Some <==> self.reviewed_at is Some
        &&& self.is_adjudicated ==> self.reviewed_by is Some
        &&& self.is_accepted ==> self.is_adjudicated
    }

    /// The review once it is claimed at `now`.
    pub open spec fn claimed(self, reviewer: Seq<char>, now: u64) -> ReviewTaskView {
        ReviewTaskView { reviewed_by: Some(reviewer), reviewed_at: Some(now), ..self }
    }

    /// The review once the verdict `accept` is given.
    pub open spec fn decided(self, accept: bool) -> ReviewTaskView {
        ReviewTaskView { is_accepted: accept, is_adjudicated: true, ..self }
    }
}

impl View for ReviewTask {
    type V = ReviewTaskView;

    open spec fn view(&self) -> ReviewTaskView {
        ReviewTaskView {
            id: self.id,
            task_id: self.task_id,
            reviewed_by: principal_view(self.reviewed_by),
            reviewed_at: self.reviewed_at,
            is_accepted: self.is_accepted,
            is_adjudicated: self.is_adjudicated,
        }
    }
}

impl Clone for ReviewTask {
    fn clone(&self) -> (copy: ReviewTask)
        ensures
            copy == *self,
    {
        ReviewTask {
            id: self.id,
            task_id: self.task_id,
            reviewed_by: copy_principal(&self.reviewed_by),
            reviewed_at: self.reviewed_at,
            is_accepted: self.is_accepted,
            is_adjudicated: self.is_adjudicated,
        }
    }
}

impl ReviewTask {
    /// Whether the claim and its time are there together, a verdict is
    /// there only with a claim, and an acceptance only with a verdict.
    pub fn is_consistent(&self) -> (ok: bool)
        ensures
            ok == self@.consistent(),
    {
        self.reviewed_by.is_some() == self.reviewed_at.is_some() && (!self.is_adjudicated
            || self.reviewed_by.is_some()) && (!self.is_accepted || self.is_adjudicated)
    }

    /// A review as a submission of task `task_id` creates it.
    pub fn new(id: u64, task_id: u64) -> (review: ReviewTask)
        ensures
            review@ == ReviewTaskView::pending(id, task_id),
    {
        ReviewTask {
            id,
            task_id,
            reviewed_by: None,
            reviewed_at: None,
            is_accepted: false,
            is_adjudicated: false,
        }
    }
}

/// The reward for one accepted review, in the smallest unit of the currency.
pub const REWARD: u128 = 1_000_000_000_000_000_000_000_000;

/// A payment that the host is asked to make.
#[derive(Debug, PartialEq, Eq)]
pub struct Payout {
    /// How much to pay.
    pub amount: u128,
    /// The account to pay into.
    pub account: String,
}

/// A `Payout` as contracts see it.
pub struct PayoutView {
    pub amount: u128,
    pub account: Seq<char>,
}

impl View for Payout {
    type V = PayoutView;

    open spec fn view(&self) -> PayoutView {
        PayoutView { amount: self.amount, account: self.account@ }
    }
}

} // verus!
