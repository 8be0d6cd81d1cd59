//! The update of one repository as a machine that is driven from outside.
//!
//! The machine never runs anything. Each call of [`UpdateMachine::advance`]
//! takes what happened last (the update was begun, git answered, the time was
//! taken) and gives back what is to happen next, in order: hooks of the
//! observer to call, and at most one git command to run, always last. The
//! answer to that command is the next event. When the steps are over the
//! machine waits for the elapsed time, and with it builds the result.
//!
//! [`transition`] is the whole behaviour of the machine as a function on plain
//! values.

use crate::constants::{DETACHED_HEAD, MAIN_BRANCH, MASTER_BRANCH};
use crate::git::{
    checkout, checkout_of, current_branch_of, current_commit_of, fetch_prune, fetch_prune_of,
    get_current_branch, get_current_commit, has_uncommitted_changes, pull_fast_forward, pull_of,
    refused_name, reply_view, stash, stash_of, stash_pop, stash_pop_of,
    uncommitted_changes_of, valid_branch_name, validate_branch_name, CommandModel, GitCommand,
    GitError, GitErrorModel, GitReply, ReplyModel,
};
use crate::repo::{
    FailureModel, HeadModel, OriginalHead, OutcomeModel, PrimaryBranch, ResultModel, SuccessModel,
    UpdateCallbacks, UpdateFailure, UpdateOutcome, UpdateResult, UpdateStep, UpdateSuccess,
};
use std::time::Duration;
use vstd::prelude::*;

verus! {

/// What happened last.
#[derive(Debug)]
pub enum Event {
    /// The update is to begin.
    Begin,
    /// The git command that was run last gave this.
    Reply(GitReply),
    /// The steps took this long.
    Elapsed(Duration),
}

/// An [`Event`] as a plain value.
pub ghost enum EventModel {
    Begin,
    Reply(ReplyModel),
    Elapsed(Duration),
}

impl View for Event {
    type V = EventModel;

    open spec fn view(&self) -> EventModel {
        match self {
            Event::Begin => EventModel::Begin,
            Event::Reply(reply) => EventModel::Reply(reply_view(*reply)),
            Event::Elapsed(duration) => EventModel::Elapsed(*duration),
        }
    }
}

/// What is to happen next.
#[derive(Debug, PartialEq, Eq)]
pub enum Effect {
    /// Call `on_update_start` with this name.
    UpdateStart { repo_name: String },
    /// Call `on_step`.
    Step(UpdateStep),
    /// Call `on_step_execute`.
    StepExecute(UpdateStep),
    /// Run this command and hand its reply to the machine.
    Run(GitCommand),
    /// Call `on_complete`.
    Complete(UpdateResult),
    /// Call `on_completion_status`.
    CompletionStatus { success: bool, error: Option<String> },
}

/// An [`Effect`] as a plain value.
pub ghost enum EffectModel {
    UpdateStart { repo_name: Seq<char> },
    Step(UpdateStep),
    StepExecute(UpdateStep),
    Run(CommandModel),
    Complete(ResultModel),
    CompletionStatus { success: bool, error: Option<Seq<char>> },
}

impl View for Effect {
    type V = EffectModel;

    open spec fn view(&self) -> EffectModel {
        match self {
            Effect::UpdateStart { repo_name } => EffectModel::UpdateStart { repo_name: repo_name@ },
            Effect::Step(step) => EffectModel::Step(*step),
            Effect::StepExecute(step) => EffectModel::StepExecute(*step),
            Effect::Run(command) => EffectModel::Run(command@),
            Effect::Complete(result) => EffectModel::Complete(result@),
            Effect::CompletionStatus { success, error } => EffectModel::CompletionStatus {
                success: *success,
                error: match error {
                    Some(text) => Some(text@),
                    None => None,
                },
            },
        }
    }
}

/// The plain values of `effects`, in order.
pub open spec fn effects_view(effects: Seq<Effect>) -> Seq<EffectModel> {
    Seq::new(effects.len(), |i: int| effects[i]@)
}

impl Effect {
    /// The command to run, if this effect is one.
    pub fn command(&self) -> (r: Option<&GitCommand>)
        ensures
            match self@ {
                EffectModel::Run(command) => r is Some && r.unwrap()@ == command,
                _ => r is None,
            },
    {
        match self {
            Effect::Run(command) => Some(command),
            _ => None,
        }
    }

    /// Calls the hook of `callbacks` that this effect names, with what it
    /// carries. A command to run names no hook: nothing is called.
    pub fn notify<C: UpdateCallbacks>(&self, callbacks: &C) {
        match self {
            Effect::UpdateStart { repo_name } => callbacks.on_update_start(repo_name.as_str()),
            Effect::Step(step) => callbacks.on_step(step),
            Effect::StepExecute(step) => callbacks.on_step_execute(step),
            Effect::Run(_) => {},
            Effect::Complete(result) => callbacks.on_complete(result),
            Effect::CompletionStatus { success, error } => {
                match error {
                    Some(text) => callbacks.on_completion_status(*success, Some(text.as_str())),
                    None => callbacks.on_completion_status(*success, None),
                }
            },
        }
    }
}

/// Where the machine stands, with what it has learnt so far. From
/// `DetectingBranch` to `PoppingStash` the machine waits for the reply to the
/// command it gave out last.
#[derive(Debug)]
enum Phase {
    Idle,
    DetectingBranch,
    ResolvingCommit,
    CheckingChanges { head: OriginalHead },
    Fetching { head: OriginalHead, dirty: bool },
    Stashing { head: OriginalHead },
    CheckingOutMaster { head: OriginalHead, had_stash: bool },
    CheckingOutMain { head: OriginalHead, had_stash: bool },
    Pulling { head: OriginalHead, had_stash: bool, primary: PrimaryBranch },
    RestoringBranch { head: OriginalHead, had_stash: bool, primary: PrimaryBranch },
    PoppingStash { head: OriginalHead, primary: PrimaryBranch },
    Finishing { outcome: UpdateOutcome },
    Done { result: UpdateResult },
}

/// Where the machine stands, as a plain value.
pub ghost enum PhaseModel {
    /// Not begun.
    Idle,
    /// Asked for the current branch.
    DetectingBranch,
    /// HEAD is detached; asked for the current commit.
    ResolvingCommit,
    /// Asked for the status of the working tree.
    CheckingChanges { head: HeadModel },
    /// Asked to fetch.
    Fetching { head: HeadModel, dirty: bool },
    /// Asked to stash.
    Stashing { head: HeadModel },
    /// Asked to check out `master`.
    CheckingOutMaster { head: HeadModel, had_stash: bool },
    /// `master` could not be checked out; asked to check out `main`.
    CheckingOutMain { head: HeadModel, had_stash: bool },
    /// Asked to pull the primary branch.
    Pulling { head: HeadModel, had_stash: bool, primary: PrimaryBranch },
    /// Asked to check out what HEAD was on.
    RestoringBranch { head: HeadModel, had_stash: bool, primary: PrimaryBranch },
    /// Asked to pop the stash.
    PoppingStash { head: HeadModel, primary: PrimaryBranch },
    /// The steps are over; waiting for the time they took.
    Finishing { outcome: OutcomeModel },
    /// Over.
    Done { result: ResultModel },
}

impl View for Phase {
    type V = PhaseModel;

    closed spec fn view(&self) -> PhaseModel {
        match self {
            Phase::Idle => PhaseModel::Idle,
            Phase::DetectingBranch => PhaseModel::DetectingBranch,
            Phase::ResolvingCommit => PhaseModel::ResolvingCommit,
            Phase::CheckingChanges { head } => PhaseModel::CheckingChanges { head: head@ },
            Phase::Fetching { head, dirty } => PhaseModel::Fetching { head: head@, dirty: *dirty },
            Phase::Stashing { head } => PhaseModel::Stashing { head: head@ },
            Phase::CheckingOutMaster { head, had_stash } => PhaseModel::CheckingOutMaster {
                head: head@,
                had_stash: *had_stash,
            },
            Phase::CheckingOutMain { head, had_stash } => PhaseModel::CheckingOutMain {
                head: head@,
                had_stash: *had_stash,
            },
            Phase::Pulling { head, had_stash, primary } => PhaseModel::Pulling {
                head: head@,
                had_stash: *had_stash,
                primary: *primary,
            },
            Phase::RestoringBranch { head, had_stash, primary } => PhaseModel::RestoringBranch {
                head: head@,
                had_stash: *had_stash,
                primary: *primary,
            },
            Phase::PoppingStash { head, primary } => PhaseModel::PoppingStash {
                head: head@,
                primary: *primary,
            },
            Phase::Finishing { outcome } => PhaseModel::Finishing { outcome: outcome@ },
            Phase::Done { result } => PhaseModel::Done { result: result@ },
        }
    }
}

/// The machine as a plain value.
pub ghost struct MachineModel {
    pub path: Seq<char>,
    pub repo_name: Seq<char>,
    pub phase: PhaseModel,
}

/// The machine for the repository at `path`, shown as `repo_name`, before
/// anything happened.
pub open spec fn initial(path: Seq<char>, repo_name: Seq<char>) -> MachineModel {
    MachineModel { path, repo_name, phase: PhaseModel::Idle }
}

/// The command whose reply a machine in `phase` waits for, if it waits for
/// one.
pub open spec fn awaited(phase: PhaseModel) -> Option<CommandModel> {
    match phase {
        PhaseModel::DetectingBranch => Some(CommandModel::CurrentBranch),
        PhaseModel::ResolvingCommit => Some(CommandModel::CurrentCommit),
        PhaseModel::CheckingChanges { .. } => Some(CommandModel::Status),
        PhaseModel::Fetching { .. } => Some(CommandModel::FetchPrune),
        PhaseModel::Stashing { .. } => Some(CommandModel::Stash),
        PhaseModel::CheckingOutMaster { .. } => Some(
            CommandModel::Checkout { branch: MASTER_BRANCH@ },
        ),
        PhaseModel::CheckingOutMain { .. } => Some(CommandModel::Checkout { branch: MAIN_BRANCH@ }),
        PhaseModel::Pulling { primary, .. } => Some(
            CommandModel::PullFastForward { branch: primary.name() },
        ),
        PhaseModel::RestoringBranch { head, .. } => Some(
            CommandModel::Checkout { branch: head.reference() },
        ),
        PhaseModel::PoppingStash { .. } => Some(CommandModel::StashPop),
        _ => None,
    }
}

/// Entering `step`, whose command is `command`: the step is announced, then
/// its execution, then the command is given out.
pub open spec fn entering(step: UpdateStep, command: CommandModel) -> Seq<EffectModel> {
    seq![EffectModel::Step(step), EffectModel::StepExecute(step), EffectModel::Run(command)]
}

/// One more command within `step`.
pub open spec fn continuing(step: UpdateStep, command: CommandModel) -> Seq<EffectModel> {
    seq![EffectModel::StepExecute(step), EffectModel::Run(command)]
}

/// The steps end with `outcome`: the last step is announced, and the machine
/// waits for the time.
pub open spec fn finishing(outcome: OutcomeModel) -> (PhaseModel, Seq<EffectModel>) {
    (PhaseModel::Finishing { outcome }, seq![EffectModel::Step(UpdateStep::Completed)])
}

/// `step` failed with `error`: nothing more is run.
pub open spec fn failing(step: UpdateStep, error: GitErrorModel) -> (
    PhaseModel,
    Seq<EffectModel>,
) {
    finishing(OutcomeModel::Failed(FailureModel { error: error.message, step }))
}

/// Every step that was due went through.
pub open spec fn succeeding(head: HeadModel, had_stash: bool, primary: PrimaryBranch) -> (
    PhaseModel,
    Seq<EffectModel>,
) {
    finishing(
        OutcomeModel::Success(
            SuccessModel { original_head: head, master_branch: primary.name(), had_stash },
        ),
    )
}

/// HEAD is known: the working tree is looked at next.
pub open spec fn to_checking_changes(head: HeadModel) -> (PhaseModel, Seq<EffectModel>) {
    (
        PhaseModel::CheckingChanges { head },
        entering(UpdateStep::CheckingChanges, CommandModel::Status),
    )
}

/// The working tree is out of the way: `master` is tried first.
pub open spec fn to_checking_out(head: HeadModel, had_stash: bool) -> (
    PhaseModel,
    Seq<EffectModel>,
) {
    (
        PhaseModel::CheckingOutMaster { head, had_stash },
        entering(UpdateStep::CheckingOut, CommandModel::Checkout { branch: MASTER_BRANCH@ }),
    )
}

/// The primary branch is checked out: it is pulled next.
pub open spec fn to_pulling(head: HeadModel, had_stash: bool, primary: PrimaryBranch) -> (
    PhaseModel,
    Seq<EffectModel>,
) {
    (
        PhaseModel::Pulling { head, had_stash, primary },
        entering(UpdateStep::Pulling, CommandModel::PullFastForward { branch: primary.name() }),
    )
}

/// The primary branch is up to date: HEAD goes back to where it was. A
/// reference that git may not be handed fails the step before anything runs.
pub open spec fn to_restoring(head: HeadModel, had_stash: bool, primary: PrimaryBranch) -> (
    PhaseModel,
    Seq<EffectModel>,
) {
    if valid_branch_name(head.reference()) {
        (
            PhaseModel::RestoringBranch { head, had_stash, primary },
            entering(
                UpdateStep::RestoringBranch,
                CommandModel::Checkout { branch: head.reference() },
            ),
        )
    } else {
        let (phase, effects) = failing(
            UpdateStep::RestoringBranch,
            refused_name(head.reference()),
        );
        (phase, seq![EffectModel::Step(UpdateStep::RestoringBranch)] + effects)
    }
}

/// What a machine in `phase` does with `reply`. A machine that waits for no
/// reply stays as it is.
pub open spec fn on_reply(phase: PhaseModel, reply: ReplyModel) -> (PhaseModel, Seq<EffectModel>) {
    match phase {
        PhaseModel::DetectingBranch => match current_branch_of(reply) {
            Ok(name) => if name == DETACHED_HEAD@ {
                (
                    PhaseModel::ResolvingCommit,
                    continuing(UpdateStep::DetectingBranch, CommandModel::CurrentCommit),
                )
            } else {
                to_checking_changes(HeadModel::Branch(name))
            },
            Err(error) => failing(UpdateStep::DetectingBranch, error),
        },
        PhaseModel::ResolvingCommit => match current_commit_of(reply) {
            Ok(commit) => to_checking_changes(HeadModel::DetachedAt(commit)),
            Err(error) => failing(UpdateStep::DetectingBranch, error),
        },
        PhaseModel::CheckingChanges { head } => match uncommitted_changes_of(reply) {
            Ok(dirty) => (
                PhaseModel::Fetching { head, dirty },
                entering(UpdateStep::Fetching, CommandModel::FetchPrune),
            ),
            Err(error) => failing(UpdateStep::CheckingChanges, error),
        },
        PhaseModel::Fetching { head, dirty } => match fetch_prune_of(reply) {
            Ok(_) => if dirty {
                (PhaseModel::Stashing { head }, entering(UpdateStep::Stashing, CommandModel::Stash))
            } else {
                to_checking_out(head, false)
            },
            Err(error) => failing(UpdateStep::Fetching, error),
        },
        PhaseModel::Stashing { head } => match stash_of(reply) {
            Ok(created) => to_checking_out(head, created),
            Err(error) => failing(UpdateStep::Stashing, error),
        },
        PhaseModel::CheckingOutMaster { head, had_stash } => match checkout_of(
            MASTER_BRANCH@,
            reply,
        ) {
            Ok(_) => to_pulling(head, had_stash, PrimaryBranch::Master),
            Err(_) => (
                PhaseModel::CheckingOutMain { head, had_stash },
                continuing(
                    UpdateStep::CheckingOut,
                    CommandModel::Checkout { branch: MAIN_BRANCH@ },
                ),
            ),
        },
        PhaseModel::CheckingOutMain { head, had_stash } => match checkout_of(MAIN_BRANCH@, reply) {
            Ok(_) => to_pulling(head, had_stash, PrimaryBranch::Main),
            Err(error) => failing(UpdateStep::CheckingOut, error),
        },
        PhaseModel::Pulling { head, had_stash, primary } => match pull_of(reply) {
            Ok(_) => to_restoring(head, had_stash, primary),
            Err(error) => failing(UpdateStep::Pulling, error),
        },
        PhaseModel::RestoringBranch { head, had_stash, primary } => match checkout_of(
            head.reference(),
            reply,
        ) {
            Ok(_) => if had_stash {
                (
                    PhaseModel::PoppingStash { head, primary },
                    entering(UpdateStep::PoppingStash, CommandModel::StashPop),
                )
            } else {
                succeeding(head, false, primary)
            },
            Err(error) => failing(UpdateStep::RestoringBranch, error),
        },
        PhaseModel::PoppingStash { head, primary } => match stash_pop_of(reply) {
            Ok(_) => succeeding(head, true, primary),
            Err(error) => failing(UpdateStep::PoppingStash, error),
        },
        _ => (phase, Seq::empty()),
    }
}

/// The hooks that close an update that ended with `result`.
pub open spec fn completing(result: ResultModel) -> Seq<EffectModel> {
    seq![
        EffectModel::Complete(result),
        EffectModel::CompletionStatus {
            success: result.outcome is Success,
            error: match result.outcome {
                OutcomeModel::Success(_) => None,
                OutcomeModel::Failed(failure) => Some(failure.error),
            },
        },
    ]
}

/// The machine: from where it stands and what happened, to where it stands
/// next and what is to happen, in order. An event that the machine does not
/// wait for changes nothing and asks for nothing.
pub open spec fn transition(machine: MachineModel, event: EventModel) -> (
    MachineModel,
    Seq<EffectModel>,
) {
    match (machine.phase, event) {
        (PhaseModel::Idle, EventModel::Begin) => (
            MachineModel { phase: PhaseModel::DetectingBranch, ..machine },
            seq![
                EffectModel::UpdateStart { repo_name: machine.repo_name },
                EffectModel::Step(UpdateStep::Started),
            ] + entering(UpdateStep::DetectingBranch, CommandModel::CurrentBranch),
        ),
        (_, EventModel::Reply(reply)) => {
            let (phase, effects) = on_reply(machine.phase, reply);
            (MachineModel { phase, ..machine }, effects)
        },
        (PhaseModel::Finishing { outcome }, EventModel::Elapsed(duration)) => {
            let result = ResultModel { path: machine.path, outcome, duration };
            (MachineModel { phase: PhaseModel::Done { result }, ..machine }, completing(result))
        },
        _ => (machine, Seq::empty()),
    }
}

/// The update of one repository, driven from outside.
#[derive(Debug)]
pub struct UpdateMachine {
    path: String,
    repo_name: String,
    phase: Phase,
}

impl View for UpdateMachine {
    type V = MachineModel;

    closed spec fn view(&self) -> MachineModel {
        MachineModel { path: self.path@, repo_name: self.repo_name@, phase: self.phase@ }
    }
}

fn enter(step: UpdateStep, command: GitCommand) -> (r: Vec<Effect>)
    ensures
        effects_view(r@) == entering(step, command@),
{
    let mut r: Vec<Effect> = Vec::new();
    r.push(Effect::Step(step));
    r.push(Effect::StepExecute(step));
    r.push(Effect::Run(command));
    assert(effects_view(r@) =~= entering(step, command@));
    r
}

fn carry_on(step: UpdateStep, command: GitCommand) -> (r: Vec<Effect>)
    ensures
        effects_view(r@) == continuing(step, command@),
{
    let mut r: Vec<Effect> = Vec::new();
    r.push(Effect::StepExecute(step));
    r.push(Effect::Run(command));
    assert(effects_view(r@) =~= continuing(step, command@));
    r
}

fn nothing() -> (r: Vec<Effect>)
    ensures
        effects_view(r@) == Seq::<EffectModel>::empty(),
{
    let r: Vec<Effect> = Vec::new();
    assert(effects_view(r@) =~= Seq::<EffectModel>::empty());
    r
}

fn finish(outcome: UpdateOutcome) -> (r: (Phase, Vec<Effect>))
    ensures
        (r.0@, effects_view(r.1@)) == finishing(outcome@),
{
    let mut effects: Vec<Effect> = Vec::new();
    effects.push(Effect::Step(UpdateStep::Completed));
    assert(effects_view(effects@) =~= finishing(outcome@).1);
    (Phase::Finishing { outcome }, effects)
}

fn fail(step: UpdateStep, error: GitError) -> (r: (Phase, Vec<Effect>))
    ensures
        (r.0@, effects_view(r.1@)) == failing(step, error@),
{
    finish(UpdateOutcome::Failed(UpdateFailure { error: error.message, step }))
}

fn succeed(head: OriginalHead, had_stash: bool, primary: PrimaryBranch) -> (r: (
    Phase,
    Vec<Effect>,
))
    ensures
        (r.0@, effects_view(r.1@)) == succeeding(head@, had_stash, primary),
{
    finish(
        UpdateOutcome::Success(
            UpdateSuccess { original_head: head, master_branch: primary.to_name(), had_stash },
        ),
    )
}

fn check_changes(head: OriginalHead) -> (r: (Phase, Vec<Effect>))
    ensures
        (r.0@, effects_view(r.1@)) == to_checking_changes(head@),
{
    (Phase::CheckingChanges { head }, enter(UpdateStep::CheckingChanges, GitCommand::Status))
}

fn check_out(head: OriginalHead, had_stash: bool) -> (r: (Phase, Vec<Effect>))
    ensures
        (r.0@, effects_view(r.1@)) == to_checking_out(head@, had_stash),
{
    (
        Phase::CheckingOutMaster { head, had_stash },
        enter(UpdateStep::CheckingOut, GitCommand::Checkout { branch: MASTER_BRANCH.to_string() }),
    )
}

fn pull(head: OriginalHead, had_stash: bool, primary: PrimaryBranch) -> (r: (Phase, Vec<Effect>))
    ensures
        (r.0@, effects_view(r.1@)) == to_pulling(head@, had_stash, primary),
{
    (
        Phase::Pulling { head, had_stash, primary },
        enter(UpdateStep::Pulling, GitCommand::PullFastForward { branch: primary.to_name() }),
    )
}

fn restore(head: OriginalHead, had_stash: bool, primary: PrimaryBranch) -> (r: (
    Phase,
    Vec<Effect>,
))
    ensures
        (r.0@, effects_view(r.1@)) == to_restoring(head@, had_stash, primary),
{
    match validate_branch_name(head.reference()) {
        Ok(_) => {
            let branch = head.reference().to_string();
            (
                Phase::RestoringBranch { head, had_stash, primary },
                enter(UpdateStep::RestoringBranch, GitCommand::Checkout { branch }),
            )
        },
        Err(error) => {
            let (phase, rest) = fail(UpdateStep::RestoringBranch, error);
            let mut effects: Vec<Effect> = Vec::new();
            effects.push(Effect::Step(UpdateStep::RestoringBranch));
            effects.push(Effect::Step(UpdateStep::Completed));
            assert(effects_view(effects@) =~= to_restoring(head@, had_stash, primary).1);
            (phase, effects)
        },
    }
}

fn reply_to(phase: Phase, reply: GitReply) -> (r: (Phase, Vec<Effect>))
    ensures
        (r.0@, effects_view(r.1@)) == on_reply(phase@, reply_view(reply)),
{
    match phase {
        Phase::DetectingBranch => match get_current_branch(reply) {
            Ok(name) => {
                let sentinel = DETACHED_HEAD.to_string();
                if name == sentinel {
                    (
                        Phase::ResolvingCommit,
                        carry_on(UpdateStep::DetectingBranch, GitCommand::CurrentCommit),
                    )
                } else {
                    check_changes(OriginalHead::Branch(name))
                }
            },
            Err(error) => fail(UpdateStep::DetectingBranch, error),
        },
        Phase::ResolvingCommit => match get_current_commit(reply) {
            Ok(commit) => check_changes(OriginalHead::DetachedAt(commit)),
            Err(error) => fail(UpdateStep::DetectingBranch, error),
        },
        Phase::CheckingChanges { head } => match has_uncommitted_changes(reply) {
            Ok(dirty) => (
                Phase::Fetching { head, dirty },
                enter(UpdateStep::Fetching, GitCommand::FetchPrune),
            ),
            Err(error) => fail(UpdateStep::CheckingChanges, error),
        },
        Phase::Fetching { head, dirty } => match fetch_prune(reply) {
            Ok(_) => if dirty {
                (Phase::Stashing { head }, enter(UpdateStep::Stashing, GitCommand::Stash))
            } else {
                check_out(head, false)
            },
            Err(error) => fail(UpdateStep::Fetching, error),
        },
        Phase::Stashing { head } => match stash(reply) {
            Ok(created) => check_out(head, created),
            Err(error) => fail(UpdateStep::Stashing, error),
        },
        Phase::CheckingOutMaster { head, had_stash } => match checkout(MASTER_BRANCH, reply) {
            Ok(_) => pull(head, had_stash, PrimaryBranch::Master),
            Err(_) => (
                Phase::CheckingOutMain { head, had_stash },
                carry_on(
                    UpdateStep::CheckingOut,
                    GitCommand::Checkout { branch: MAIN_BRANCH.to_string() },
                ),
            ),
        },
        Phase::CheckingOutMain { head, had_stash } => match checkout(MAIN_BRANCH, reply) {
            Ok(_) => pull(head, had_stash, PrimaryBranch::Main),
            Err(error) => fail(UpdateStep::CheckingOut, error),
        },
        Phase::Pulling { head, had_stash, primary } => match pull_fast_forward(reply) {
            Ok(_) => restore(head, had_stash, primary),
            Err(error) => fail(UpdateStep::Pulling, error),
        },
        Phase::RestoringBranch { head, had_stash, primary } => match checkout(
            head.reference(),
            reply,
        ) {
            Ok(_) => if had_stash {
                (
                    Phase::PoppingStash { head, primary },
                    enter(UpdateStep::PoppingStash, GitCommand::StashPop),
                )
            } else {
                succeed(head, false, primary)
            },
            Err(error) => fail(UpdateStep::RestoringBranch, error),
        },
        Phase::PoppingStash { head, primary } => match stash_pop(reply) {
            Ok(_) => succeed(head, true, primary),
            Err(error) => fail(UpdateStep::PoppingStash, error),
        },
        other => (other, nothing()),
    }
}

fn complete(result: &UpdateResult) -> (r: Vec<Effect>)
    ensures
        effects_view(r@) == completing(result@),
{
    let mut r: Vec<Effect> = Vec::new();
    r.push(Effect::Complete(result.clone()));
    let error = match result.outcome.error() {
        Some(text) => Some(text.to_string()),
        None => None,
    };
    r.push(Effect::CompletionStatus { success: result.outcome.is_success(), error });
    assert(effects_view(r@) =~= completing(result@));
    r
}

impl UpdateMachine {
    /// A machine for the repository at `path`, shown to the observer as
    /// `repo_name`.
    pub fn new(path: String, repo_name: String) -> (r: UpdateMachine)
        ensures
            r@ == initial(path@, repo_name@),
    {
        UpdateMachine { path, repo_name, phase: Phase::Idle }
    }

    /// Takes what happened last and gives back the machine after it, with
    /// what is to happen next, in order.
    pub fn advance(self, event: Event) -> (r: (UpdateMachine, Vec<Effect>))
        ensures
            (r.0@, effects_view(r.1@)) == transition(self@, event@),
    {
        let UpdateMachine { path, repo_name, phase } = self;
        match event {
            Event::Begin => match phase {
                Phase::Idle => {
                    let mut effects: Vec<Effect> = Vec::new();
                    effects.push(Effect::UpdateStart { repo_name: repo_name.clone() });
                    effects.push(Effect::Step(UpdateStep::Started));
                    effects.push(Effect::Step(UpdateStep::DetectingBranch));
                    effects.push(Effect::StepExecute(UpdateStep::DetectingBranch));
                    effects.push(Effect::Run(GitCommand::CurrentBranch));
                    assert(effects_view(effects@) =~= transition(self@, event@).1);
                    (UpdateMachine { path, repo_name, phase: Phase::DetectingBranch }, effects)
                },
                other => (UpdateMachine { path, repo_name, phase: other }, nothing()),
            },
            Event::Reply(reply) => {
                let (next, effects) = reply_to(phase, reply);
                (UpdateMachine { path, repo_name, phase: next }, effects)
            },
            Event::Elapsed(duration) => match phase {
                Phase::Finishing { outcome } => {
                    let result = UpdateResult { path: path.clone(), outcome, duration };
                    let effects = complete(&result);
                    (UpdateMachine { path, repo_name, phase: Phase::Done { result } }, effects)
                },
                other => (UpdateMachine { path, repo_name, phase: other }, nothing()),
            },
        }
    }

    /// Whether the machine waits for the reply to a command.
    pub fn awaits_reply(&self) -> (r: bool)
        ensures
            r == (awaited(self@.phase) is Some),
    {
        match &self.phase {
            Phase::Idle => false,
            Phase::Finishing { .. } => false,
            Phase::Done { .. } => false,
            _ => true,
        }
    }

    /// Whether the steps are over and the machine waits for the time they
    /// took.
    pub fn awaits_elapsed(&self) -> (r: bool)
        ensures
            r == (self@.phase is Finishing),
    {
        match &self.phase {
            Phase::Finishing { .. } => true,
            _ => false,
        }
    }

    /// Whether the update is over.
    pub fn is_done(&self) -> (r: bool)
        ensures
            r == (self@.phase is Done),
    {
        match &self.phase {
            Phase::Done { .. } => true,
            _ => false,
        }
    }

    /// The result, once the update is over.
    pub fn into_result(self) -> (r: Option<UpdateResult>)
        ensures
            match self@.phase {
                PhaseModel::Done { result } => r is Some && r.unwrap()@ == result,
                _ => r is None,
            },
    {
        match self.phase {
            Phase::Done { result } => Some(result),
            _ => None,
        }
    }
}

} // verus!
