//! Whole runs of the update machine: what it asked git and what git said,
//! from the first event to the last, and the shape that every such record
//! has.

use crate::constants::{DETACHED_HEAD, MAIN_BRANCH, MASTER_BRANCH, NOTHING_TO_STASH};
use crate::git::{
    checkout_context, refused_name, valid_branch_name, CommandModel, GitErrorModel, ReplyModel,
};
use crate::machine::{awaited, initial, on_reply, transition, EventModel, MachineModel, PhaseModel};
use crate::repo::{
    FailureModel, HeadModel, OutcomeModel, PrimaryBranch, SuccessModel, UpdateStep,
};
use crate::text::{chained, mentions};
use vstd::prelude::*;

verus! {

/// A command that the machine gave out, with the reply that it was handed.
pub type Exchange = (CommandModel, ReplyModel);

/// The record after `event` reached `machine`: a reply is an answer to the
/// command that the machine waited for, anything else leaves the record as it
/// is.
pub open spec fn recorded(
    machine: MachineModel,
    asked: Seq<Exchange>,
    event: EventModel,
) -> Seq<Exchange> {
    match (awaited(machine.phase), event) {
        (Some(command), EventModel::Reply(reply)) => asked.push((command, reply)),
        _ => asked,
    }
}

/// The machine for the repository at `path`, shown as `repo_name`, after
/// `events` reached it one by one, with the record of what it asked and was
/// told.
pub open spec fn run(path: Seq<char>, repo_name: Seq<char>, events: Seq<EventModel>) -> (
    MachineModel,
    Seq<Exchange>,
)
    decreases events.len(),
{
    if events.len() == 0 {
        (initial(path, repo_name), Seq::empty())
    } else {
        let (machine, asked) = run(path, repo_name, events.drop_last());
        (transition(machine, events.last()).0, recorded(machine, asked, events.last()))
    }
}

/// How the update ended, if it is over or only waits for the time.
pub open spec fn outcome_of(machine: MachineModel) -> Option<OutcomeModel> {
    match machine.phase {
        PhaseModel::Finishing { outcome } => Some(outcome),
        PhaseModel::Done { result } => Some(result.outcome),
        _ => None,
    }
}

/// The output of the `i`-th reply; empty for a failure.
pub open spec fn output_at(asked: Seq<Exchange>, i: int) -> Seq<char> {
    match asked[i].1 {
        Ok(output) => output,
        Err(_) => Seq::empty(),
    }
}

/// Git answered the first question with the mark of a detached HEAD.
pub open spec fn detached(asked: Seq<Exchange>) -> bool {
    asked[0].1 == Ok::<Seq<char>, GitErrorModel>(DETACHED_HEAD@)
}

/// How many questions it takes to know where HEAD stands; the status is asked
/// for at this place.
pub open spec fn status_at(asked: Seq<Exchange>) -> int {
    if detached(asked) {
        2
    } else {
        1
    }
}

/// Where the record says HEAD stood.
pub open spec fn head_of(asked: Seq<Exchange>) -> HeadModel {
    if detached(asked) {
        HeadModel::DetachedAt(output_at(asked, 1))
    } else {
        HeadModel::Branch(output_at(asked, 0))
    }
}

/// Whether the record says the working tree was dirty.
pub open spec fn dirty_of(asked: Seq<Exchange>) -> bool {
    output_at(asked, status_at(asked)).len() > 0
}

/// Whether the record says a stash was created.
pub open spec fn had_stash_of(asked: Seq<Exchange>) -> bool {
    dirty_of(asked) && !mentions(output_at(asked, status_at(asked) + 2), NOTHING_TO_STASH@)
}

/// The place at which `master` is checked out.
pub open spec fn checkout_at(asked: Seq<Exchange>) -> int {
    status_at(asked) + 2 + if dirty_of(asked) {
        1int
    } else {
        0int
    }
}

/// The name under which the record says the primary branch was found.
pub open spec fn primary_of(asked: Seq<Exchange>) -> PrimaryBranch {
    if asked[checkout_at(asked)].1 is Ok {
        PrimaryBranch::Master
    } else {
        PrimaryBranch::Main
    }
}

/// The place at which the primary branch is pulled. HEAD is put back at the
/// next place, and the stash popped at the one after that.
pub open spec fn pull_at(asked: Seq<Exchange>) -> int {
    checkout_at(asked) + if primary_of(asked) == PrimaryBranch::Main {
        2int
    } else {
        1int
    }
}

/// How many questions an update that goes through asks.
pub open spec fn length_of(asked: Seq<Exchange>) -> int {
    pull_at(asked) + 2 + if had_stash_of(asked) {
        1int
    } else {
        0int
    }
}

/// The command that stands at place `i` of a record that begins as `asked`
/// does.
pub open spec fn scripted(asked: Seq<Exchange>, i: int) -> CommandModel {
    if i == 0 {
        CommandModel::CurrentBranch
    } else if i < status_at(asked) {
        CommandModel::CurrentCommit
    } else if i == status_at(asked) {
        CommandModel::Status
    } else if i == status_at(asked) + 1 {
        CommandModel::FetchPrune
    } else if i < checkout_at(asked) {
        CommandModel::Stash
    } else if i == checkout_at(asked) {
        CommandModel::Checkout { branch: MASTER_BRANCH@ }
    } else if i < pull_at(asked) {
        CommandModel::Checkout { branch: MAIN_BRANCH@ }
    } else if i == pull_at(asked) {
        CommandModel::PullFastForward { branch: primary_of(asked).name() }
    } else if i == pull_at(asked) + 1 {
        CommandModel::Checkout { branch: head_of(asked).reference() }
    } else {
        CommandModel::StashPop
    }
}

/// The step that the command at place `i` belongs to.
pub open spec fn step_at(asked: Seq<Exchange>, i: int) -> UpdateStep {
    if i < status_at(asked) {
        UpdateStep::DetectingBranch
    } else if i == status_at(asked) {
        UpdateStep::CheckingChanges
    } else if i == status_at(asked) + 1 {
        UpdateStep::Fetching
    } else if i < checkout_at(asked) {
        UpdateStep::Stashing
    } else if i < pull_at(asked) {
        UpdateStep::CheckingOut
    } else if i == pull_at(asked) {
        UpdateStep::Pulling
    } else if i == pull_at(asked) + 1 {
        UpdateStep::RestoringBranch
    } else {
        UpdateStep::PoppingStash
    }
}

/// How a failure of the command at place `i` is described.
pub open spec fn context_at(asked: Seq<Exchange>, i: int) -> Seq<char> {
    if i == 0 {
        "Failed to get current branch"@
    } else if i < status_at(asked) {
        "Failed to get current commit"@
    } else if i == status_at(asked) {
        "Failed to check for uncommitted changes"@
    } else if i == status_at(asked) + 1 {
        "Failed to fetch from remote"@
    } else if i < checkout_at(asked) {
        "Failed to stash changes"@
    } else if i == checkout_at(asked) {
        checkout_context(MASTER_BRANCH@)
    } else if i < pull_at(asked) {
        checkout_context(MAIN_BRANCH@)
    } else if i == pull_at(asked) {
        "Failed to pull from origin"@
    } else if i == pull_at(asked) + 1 {
        checkout_context(head_of(asked).reference())
    } else {
        "Failed to pop stash"@
    }
}

/// The first `n` exchanges are the scripted ones, and each went well, but
/// for the checkout of `master`, which may have failed.
pub open spec fn answered(asked: Seq<Exchange>, n: int) -> bool {
    forall|i: int|
        0 <= i < n ==> (#[trigger] asked[i]).0 == scripted(asked, i) && (asked[i].1 is Ok || i
            == checkout_at(asked))
}

/// The record of an update that ended with `outcome`.
pub open spec fn settled(outcome: OutcomeModel, asked: Seq<Exchange>) -> bool {
    let n = asked.len() as int;
    match outcome {
        OutcomeModel::Success(success) => {
            &&& n == length_of(asked)
            &&& answered(asked, n)
            &&& valid_branch_name(head_of(asked).reference())
            &&& success == SuccessModel {
                original_head: head_of(asked),
                master_branch: primary_of(asked).name(),
                had_stash: had_stash_of(asked),
            }
        },
        OutcomeModel::Failed(failure) => {
            ||| {
                &&& 1 <= n <= length_of(asked)
                &&& answered(asked, n - 1)
                &&& asked[n - 1].0 == scripted(asked, n - 1)
                &&& asked[n - 1].1 is Err
                &&& n - 1 != checkout_at(asked)
                &&& failure == FailureModel {
                    error: chained(context_at(asked, n - 1), asked[n - 1].1->Err_0.message),
                    step: step_at(asked, n - 1),
                }
            }
            ||| {
                &&& n == pull_at(asked) + 1
                &&& answered(asked, n)
                &&& !valid_branch_name(head_of(asked).reference())
                &&& failure == FailureModel {
                    error: refused_name(head_of(asked).reference()).message,
                    step: UpdateStep::RestoringBranch,
                }
            }
        },
    }
}

/// The record that goes with a machine in `phase`: as many exchanges as the
/// phase takes, the scripted ones, saying what the machine has learnt.
pub open spec fn coherent(phase: PhaseModel, asked: Seq<Exchange>) -> bool {
    let n = asked.len() as int;
    match phase {
        PhaseModel::Idle => n == 0,
        PhaseModel::DetectingBranch => n == 0,
        PhaseModel::ResolvingCommit => n == 1 && answered(asked, n) && detached(asked),
        PhaseModel::CheckingChanges { head } => {
            &&& n == status_at(asked)
            &&& answered(asked, n)
            &&& head == head_of(asked)
        },
        PhaseModel::Fetching { head, dirty } => {
            &&& n == status_at(asked) + 1
            &&& answered(asked, n)
            &&& head == head_of(asked)
            &&& dirty == dirty_of(asked)
        },
        PhaseModel::Stashing { head } => {
            &&& n == status_at(asked) + 2
            &&& answered(asked, n)
            &&& head == head_of(asked)
            &&& dirty_of(asked)
        },
        PhaseModel::CheckingOutMaster { head, had_stash } => {
            &&& n == checkout_at(asked)
            &&& answered(asked, n)
            &&& head == head_of(asked)
            &&& had_stash == had_stash_of(asked)
        },
        PhaseModel::CheckingOutMain { head, had_stash } => {
            &&& n == checkout_at(asked) + 1
            &&& answered(asked, n)
            &&& asked[n - 1].1 is Err
            &&& head == head_of(asked)
            &&& had_stash == had_stash_of(asked)
        },
        PhaseModel::Pulling { head, had_stash, primary } => {
            &&& n == pull_at(asked)
            &&& answered(asked, n)
            &&& head == head_of(asked)
            &&& had_stash == had_stash_of(asked)
            &&& primary == primary_of(asked)
        },
        PhaseModel::RestoringBranch { head, had_stash, primary } => {
            &&& n == pull_at(asked) + 1
            &&& answered(asked, n)
            &&& valid_branch_name(head.reference())
            &&& head == head_of(asked)
            &&& had_stash == had_stash_of(asked)
            &&& primary == primary_of(asked)
        },
        PhaseModel::PoppingStash { head, primary } => {
            &&& n == pull_at(asked) + 2
            &&& answered(asked, n)
            &&& valid_branch_name(head.reference())
            &&& head == head_of(asked)
            &&& had_stash_of(asked)
            &&& primary == primary_of(asked)
        },
        PhaseModel::Finishing { outcome } => settled(outcome, asked),
        PhaseModel::Done { result } => settled(result.outcome, asked),
    }
}

/// One reply keeps machine and record in step.
proof fn lemma_reply_keeps_coherence(phase: PhaseModel, asked: Seq<Exchange>, reply: ReplyModel)
    requires
        coherent(phase, asked),
        awaited(phase) is Some,
    ensures
        coherent(on_reply(phase, reply).0, asked.push((awaited(phase)->Some_0, reply))),
{
    reveal_strlit("master");
    reveal_strlit("main");
    reveal_strlit("HEAD");
    let next = asked.push((awaited(phase)->Some_0, reply));
    let n = asked.len() as int;
    assert(forall|i: int| 0 <= i < n ==> next[i] == asked[i]);
    assert(next[n] == (awaited(phase)->Some_0, reply));
    if n > 0 {
        assert(next[0] == asked[0]);
    }
}

/// One event keeps machine and record in step.
pub proof fn lemma_event_keeps_coherence(
    machine: MachineModel,
    asked: Seq<Exchange>,
    event: EventModel,
)
    requires
        coherent(machine.phase, asked),
    ensures
        coherent(transition(machine, event).0.phase, recorded(machine, asked, event)),
{
    match event {
        EventModel::Reply(reply) => {
            if awaited(machine.phase) is Some {
                lemma_reply_keeps_coherence(machine.phase, asked, reply);
            }
        },
        _ => {},
    }
}

/// The record of every run has the shape that goes with where the machine
/// stands.
pub proof fn lemma_run_is_coherent(path: Seq<char>, repo_name: Seq<char>, events: Seq<EventModel>)
    ensures
        coherent(run(path, repo_name, events).0.phase, run(path, repo_name, events).1),
        run(path, repo_name, events).0.path == path,
        run(path, repo_name, events).0.repo_name == repo_name,
    decreases events.len(),
{
    if events.len() > 0 {
        lemma_run_is_coherent(path, repo_name, events.drop_last());
        let (machine, asked) = run(path, repo_name, events.drop_last());
        lemma_event_keeps_coherence(machine, asked, events.last());
    }
}

} // verus!
