//! What an update is made of and what it yields: the steps, the state of HEAD
//! that is put back at the end, the outcome, and the observer that is told of
//! each.

use crate::constants::{DEFAULT_REPO_NAME, MAIN_BRANCH, MASTER_BRANCH};
use std::time::Duration;
use vstd::prelude::*;

verus! {

/// A step of the update of one repository, in the order in which the steps
/// are taken. More steps may be added: match with a catch-all arm.
#[derive(Debug, Clone, Copy, PartialEq, Eq, Structural)]
#[non_exhaustive]
pub enum UpdateStep {
    Started,
    DetectingBranch,
    CheckingChanges,
    Fetching,
    Stashing,
    CheckingOut,
    Pulling,
    RestoringBranch,
    PoppingStash,
    Completed,
}

impl UpdateStep {
    /// The place of the step in the order of an update, from 0.
    pub open spec fn position(self) -> nat {
        match self {
            UpdateStep::Started => 0,
            UpdateStep::DetectingBranch => 1,
            UpdateStep::CheckingChanges => 2,
            UpdateStep::Fetching => 3,
            UpdateStep::Stashing => 4,
            UpdateStep::CheckingOut => 5,
            UpdateStep::Pulling => 6,
            UpdateStep::RestoringBranch => 7,
            UpdateStep::PoppingStash => 8,
            UpdateStep::Completed => 9,
        }
    }

    /// The place of the step in the order of an update, from 0.
    pub fn ordinal(&self) -> (r: u8)
        ensures
            r == self.position(),
    {
        match self {
            UpdateStep::Started => 0,
            UpdateStep::DetectingBranch => 1,
            UpdateStep::CheckingChanges => 2,
            UpdateStep::Fetching => 3,
            UpdateStep::Stashing => 4,
            UpdateStep::CheckingOut => 5,
            UpdateStep::Pulling => 6,
            UpdateStep::RestoringBranch => 7,
            UpdateStep::PoppingStash => 8,
            UpdateStep::Completed => 9,
        }
    }

    /// Whether this step comes before `other` in an update.
    pub fn precedes(&self, other: &UpdateStep) -> (r: bool)
        ensures
            r == (self.position() < other.position()),
    {
        self.ordinal() < other.ordinal()
    }
}

/// Which of the two names the primary branch was found under.
#[derive(Debug, Clone, Copy, PartialEq, Eq, Structural)]
pub enum PrimaryBranch {
    Master,
    Main,
}

impl PrimaryBranch {
    /// The branch name.
    pub open spec fn name(self) -> Seq<char> {
        match self {
            PrimaryBranch::Master => MASTER_BRANCH@,
            PrimaryBranch::Main => MAIN_BRANCH@,
        }
    }

    /// The branch name.
    pub fn to_name(&self) -> (r: String)
        ensures
            r@ == self.name(),
    {
        match self {
            PrimaryBranch::Master => MASTER_BRANCH.to_string(),
            PrimaryBranch::Main => MAIN_BRANCH.to_string(),
        }
    }
}

/// Where HEAD stood when the update began.
#[derive(Debug, PartialEq, Eq)]
pub enum OriginalHead {
    /// On the branch of this name.
    Branch(String),
    /// Detached, at the commit of this identifier.
    DetachedAt(String),
}

/// An [`OriginalHead`] as a plain value.
pub ghost enum HeadModel {
    Branch(Seq<char>),
    DetachedAt(Seq<char>),
}

impl HeadModel {
    /// What is checked out to get back to this state: the branch name, or
    /// the commit identifier.
    pub open spec fn reference(self) -> Seq<char> {
        match self {
            HeadModel::Branch(name) => name,
            HeadModel::DetachedAt(commit) => commit,
        }
    }
}

impl View for OriginalHead {
    type V = HeadModel;

    open spec fn view(&self) -> HeadModel {
        match self {
            OriginalHead::Branch(name) => HeadModel::Branch(name@),
            OriginalHead::DetachedAt(commit) => HeadModel::DetachedAt(commit@),
        }
    }
}

impl Clone for OriginalHead {
    fn clone(&self) -> (r: Self)
        ensures
            r@ == self@,
    {
        match self {
            OriginalHead::Branch(name) => OriginalHead::Branch(name.clone()),
            OriginalHead::DetachedAt(commit) => OriginalHead::DetachedAt(commit.clone()),
        }
    }
}

impl OriginalHead {
    /// Whether HEAD was detached.
    pub fn is_detached(&self) -> (r: bool)
        ensures
            r == (self@ is DetachedAt),
    {
        match self {
            OriginalHead::Branch(_) => false,
            OriginalHead::DetachedAt(_) => true,
        }
    }

    /// What is checked out to get back to this state.
    pub fn reference(&self) -> (r: &str)
        ensures
            r@ == self@.reference(),
    {
        match self {
            OriginalHead::Branch(name) => name.as_str(),
            OriginalHead::DetachedAt(commit) => commit.as_str(),
        }
    }
}

/// An update that went through.
#[derive(Debug, PartialEq, Eq)]
pub struct UpdateSuccess {
    /// Where HEAD stood before, and stands again.
    pub original_head: OriginalHead,
    /// The name under which the primary branch was found.
    pub master_branch: String,
    /// Whether changes were shelved, and so brought back at the end.
    pub had_stash: bool,
}

/// An [`UpdateSuccess`] as a plain value.
pub ghost struct SuccessModel {
    pub original_head: HeadModel,
    pub master_branch: Seq<char>,
    pub had_stash: bool,
}

impl View for UpdateSuccess {
    type V = SuccessModel;

    open spec fn view(&self) -> SuccessModel {
        SuccessModel {
            original_head: self.original_head@,
            master_branch: self.master_branch@,
            had_stash: self.had_stash,
        }
    }
}

/// An update that stopped at a step.
#[derive(Debug, PartialEq, Eq)]
pub struct UpdateFailure {
    /// What went wrong, the outermost context first and the cause last.
    pub error: String,
    /// The step that failed. No later step was taken.
    pub step: UpdateStep,
}

/// An [`UpdateFailure`] as a plain value.
pub ghost struct FailureModel {
    pub error: Seq<char>,
    pub step: UpdateStep,
}

impl View for UpdateFailure {
    type V = FailureModel;

    open spec fn view(&self) -> FailureModel {
        FailureModel { error: self.error@, step: self.step }
    }
}

/// How the update of one repository ended.
#[derive(Debug, PartialEq, Eq)]
pub enum UpdateOutcome {
    Success(UpdateSuccess),
    Failed(UpdateFailure),
}

/// An [`UpdateOutcome`] as a plain value.
pub ghost enum OutcomeModel {
    Success(SuccessModel),
    Failed(FailureModel),
}

impl View for UpdateOutcome {
    type V = OutcomeModel;

    open spec fn view(&self) -> OutcomeModel {
        match self {
            UpdateOutcome::Success(success) => OutcomeModel::Success(success@),
            UpdateOutcome::Failed(failure) => OutcomeModel::Failed(failure@),
        }
    }
}

impl Clone for UpdateOutcome {
    fn clone(&self) -> (r: Self)
        ensures
            r@ == self@,
    {
        match self {
            UpdateOutcome::Success(success) => UpdateOutcome::Success(
                UpdateSuccess {
                    original_head: success.original_head.clone(),
                    master_branch: success.master_branch.clone(),
                    had_stash: success.had_stash,
                },
            ),
            UpdateOutcome::Failed(failure) => UpdateOutcome::Failed(
                UpdateFailure { error: failure.error.clone(), step: failure.step },
            ),
        }
    }
}

impl UpdateOutcome {
    /// Whether the update went through.
    pub fn is_success(&self) -> (r: bool)
        ensures
            r == (self@ is Success),
    {
        match self {
            UpdateOutcome::Success(_) => true,
            UpdateOutcome::Failed(_) => false,
        }
    }

    /// The description of what went wrong, if anything did.
    pub fn error(&self) -> (r: Option<&str>)
        ensures
            match self@ {
                OutcomeModel::Success(_) => r is None,
                OutcomeModel::Failed(failure) => r is Some && r.unwrap()@ == failure.error,
            },
    {
        match self {
            UpdateOutcome::Success(_) => None,
            UpdateOutcome::Failed(failure) => Some(failure.error.as_str()),
        }
    }
}

/// The update of one repository: where, how it ended, and how long it took.
#[derive(Debug, PartialEq, Eq)]
pub struct UpdateResult {
    pub path: String,
    pub outcome: UpdateOutcome,
    pub duration: Duration,
}

/// An [`UpdateResult`] as a plain value.
pub ghost struct ResultModel {
    pub path: Seq<char>,
    pub outcome: OutcomeModel,
    pub duration: Duration,
}

impl View for UpdateResult {
    type V = ResultModel;

    open spec fn view(&self) -> ResultModel {
        ResultModel { path: self.path@, outcome: self.outcome@, duration: self.duration }
    }
}

impl Clone for UpdateResult {
    fn clone(&self) -> (r: Self)
        ensures
            r@ == self@,
    {
        UpdateResult {
            path: self.path.clone(),
            outcome: self.outcome.clone(),
            duration: self.duration,
        }
    }
}

/// A repository to update: where it lies, and the name it is shown under.
#[derive(Debug, PartialEq, Eq)]
pub struct Repository {
    pub path: String,
    pub name: String,
}

/// A [`Repository`] as a plain value.
pub ghost struct RepositoryModel {
    pub path: Seq<char>,
    pub name: Seq<char>,
}

impl View for Repository {
    type V = RepositoryModel;

    open spec fn view(&self) -> RepositoryModel {
        RepositoryModel { path: self.path@, name: self.name@ }
    }
}

impl Clone for Repository {
    fn clone(&self) -> (r: Self)
        ensures
            r@ == self@,
    {
        Repository { path: self.path.clone(), name: self.name.clone() }
    }
}

impl Repository {
    /// The repository at `path`, shown under the last component of the path
    /// where `file_name` gives one, under a fixed name otherwise.
    pub fn new(path: &str, file_name: Option<&str>) -> (r: Repository)
        ensures
            r@ == (RepositoryModel {
                path: path@,
                name: match file_name {
                    Some(name) => name@,
                    None => DEFAULT_REPO_NAME@,
                },
            }),
    {
        Repository { path: path.to_string(), name: get_repo_name(file_name).to_string() }
    }
}

/// The observer of an update. `on_step` and `on_complete` are required; the
/// other hooks do nothing unless an implementation says otherwise. Hooks are
/// called one after another, on the thread that updates the repository.
pub trait UpdateCallbacks: Send + Sync {
    /// A step is being entered.
    fn on_step(&self, step: &UpdateStep);

    /// The update is over; called once, after the step [`UpdateStep::Completed`].
    fn on_complete(&self, result: &UpdateResult);

    /// The update of the repository of this name is about to begin.
    fn on_update_start(&self, _repo_name: &str) {
    }

    /// The git command of this step is about to run.
    fn on_step_execute(&self, _step: &UpdateStep) {
    }

    /// The update is over: whether it went through, and if not, why.
    fn on_completion_status(&self, _success: bool, _error: Option<&str>) {
    }
}

/// The observer that ignores everything.
#[derive(Debug, Clone, Copy)]
pub struct NoOpCallbacks;

impl Default for NoOpCallbacks {
    fn default() -> (r: Self)
        ensures
            r == NoOpCallbacks,
    {
        NoOpCallbacks
    }
}

impl UpdateCallbacks for NoOpCallbacks {
    #[inline]
    fn on_step(&self, _step: &UpdateStep) {
    }

    #[inline]
    fn on_complete(&self, _result: &UpdateResult) {
    }
}

/// The observer made of two functions: one that is told of each step, one
/// that is told of the result.
pub struct ClosureCallbacks<F1, F2> where
    F1: Fn(&UpdateStep) + Send + Sync,
    F2: Fn(&UpdateResult) + Send + Sync,
 {
    on_step: F1,
    on_complete: F2,
}

impl<F1, F2> ClosureCallbacks<F1, F2> where
    F1: Fn(&UpdateStep) + Send + Sync,
    F2: Fn(&UpdateResult) + Send + Sync,
 {
    /// Both functions can be called with whatever they are told.
    #[verifier::type_invariant]
    spec fn callable(self) -> bool {
        &&& forall|step: &UpdateStep| call_requires(self.on_step, (step,))
        &&& forall|result: &UpdateResult| call_requires(self.on_complete, (result,))
    }

    /// The observer that hands each step to `on_step` and the result to
    /// `on_complete`.
    pub fn new(on_step: F1, on_complete: F2) -> (r: Self)
        requires
            forall|step: &UpdateStep| call_requires(on_step, (step,)),
            forall|result: &UpdateResult| call_requires(on_complete, (result,)),
        ensures
            r.step_hook() == on_step,
            r.result_hook() == on_complete,
    {
        ClosureCallbacks { on_step, on_complete }
    }

    /// The function that is told of each step.
    pub closed spec fn step_hook(self) -> F1 {
        self.on_step
    }

    /// The function that is told of the result.
    pub closed spec fn result_hook(self) -> F2 {
        self.on_complete
    }
}

impl<F1, F2> UpdateCallbacks for ClosureCallbacks<F1, F2> where
    F1: Fn(&UpdateStep) + Send + Sync,
    F2: Fn(&UpdateResult) + Send + Sync,
 {
    /// Calls the function that is told of each step, with `step`.
    fn on_step(&self, step: &UpdateStep)
        ensures
            call_ensures(self.step_hook(), (step,), ()),
    {
        proof {
            use_type_invariant(self);
        }
        (self.on_step)(step);
    }

    /// Calls the function that is told of the result, with `result`.
    fn on_complete(&self, result: &UpdateResult)
        ensures
            call_ensures(self.result_hook(), (result,), ()),
    {
        proof {
            use_type_invariant(self);
        }
        (self.on_complete)(result);
    }
}

/// The name a repository is shown under: the last component of its path
/// where it has one that is text, a fixed name otherwise.
pub fn get_repo_name<'a>(file_name: Option<&'a str>) -> (r: &'a str)
    ensures
        r@ == (match file_name {
            Some(name) => name@,
            None => DEFAULT_REPO_NAME@,
        }),
{
    match file_name {
        Some(name) => name,
        None => DEFAULT_REPO_NAME,
    }
}

} // verus!
