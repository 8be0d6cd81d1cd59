//! What holds of every update, whatever git answers: each law is stated of
//! the record of a whole run and proved from the machine's transitions.

use crate::constants::{DETACHED_HEAD, MAIN_BRANCH, MASTER_BRANCH, NOTHING_TO_STASH};
use crate::git::{
    checkout_context, lemma_primary_names_valid, refused_name, valid_branch_name, CommandModel,
    GitCommand, GitErrorModel, GitReply,
};
use crate::history::{
    checkout_at, coherent, context_at, detached, dirty_of, had_stash_of, head_of,
    lemma_run_is_coherent, outcome_of, primary_of, pull_at, run, scripted, status_at, step_at,
    Exchange,
};
use crate::machine::{awaited, transition, EffectModel, EventModel, MachineModel, PhaseModel};
use crate::repo::{
    FailureModel, HeadModel, OutcomeModel, RepositoryModel, ResultModel, UpdateStep,
};
use crate::summary::{exit_code_of, lemma_counts_add_up, tags};
use crate::text::{chained, mentions};
use crate::update::{answered_by, is_update_of};
use crate::workspace::{
    in_flight, lemma_in_flight_update, lemma_in_flight_zero, ExecutionMode, SchedulerModel,
    SlotModel,
};
use vstd::prelude::*;

verus! {

/// `command` was answered at some place of the record.
pub open spec fn ran(asked: Seq<Exchange>, command: CommandModel) -> bool {
    exists|i: int| 0 <= i < asked.len() && (#[trigger] asked[i]).0 == command
}

/// Whenever the status was asked for, git reported no change: the working
/// tree was clean.
pub open spec fn clean(asked: Seq<Exchange>) -> bool {
    forall|i: int|
        0 <= i < asked.len() && (#[trigger] asked[i]).0 == CommandModel::Status ==> asked[i].1
            == Ok::<Seq<char>, GitErrorModel>(Seq::empty())
}

/// Git reported changes in the working tree.
pub open spec fn dirty(asked: Seq<Exchange>) -> bool {
    exists|i: int|
        0 <= i < asked.len() && (#[trigger] asked[i]).0 == CommandModel::Status && asked[i].1 is Ok
            && asked[i].1->Ok_0.len() > 0
}

/// Whenever git was asked to stash, it found nothing to save.
pub open spec fn nothing_shelved(asked: Seq<Exchange>) -> bool {
    forall|i: int|
        0 <= i < asked.len() && (#[trigger] asked[i]).0 == CommandModel::Stash ==> asked[i].1 is Ok
            && mentions(asked[i].1->Ok_0, NOTHING_TO_STASH@)
}

/// Whenever git was asked to stash, it did save something.
pub open spec fn something_shelved(asked: Seq<Exchange>) -> bool {
    forall|i: int|
        0 <= i < asked.len() && (#[trigger] asked[i]).0 == CommandModel::Stash ==> asked[i].1 is Ok
            && !mentions(asked[i].1->Ok_0, NOTHING_TO_STASH@)
}

/// The exchange at place `i` is a checkout of `branch` that went well.
pub open spec fn checked_out_at(asked: Seq<Exchange>, i: int, branch: Seq<char>) -> bool {
    &&& 0 <= i < asked.len()
    &&& asked[i].0 == CommandModel::Checkout { branch }
    &&& asked[i].1 is Ok
}

/// A pop stands only at the last scripted place, which is there only if a
/// stash was created.
proof fn lemma_pop_place(phase: PhaseModel, asked: Seq<Exchange>, k: int)
    requires
        coherent(phase, asked),
        0 <= k < asked.len(),
        asked[k].0 == CommandModel::StashPop,
    ensures
        k == pull_at(asked) + 2,
        had_stash_of(asked),
        asked[status_at(asked) + 2].1 is Ok,
        status_at(asked) + 2 < k,
{
    lemma_primary_names_valid();
    assert(asked[k].0 == scripted(asked, k));
    let s = status_at(asked);
    assert(asked[s + 2].0 == scripted(asked, s + 2));
}

/// An update of a clean working tree that goes through shelves nothing, pops
/// nothing, and ends with the checkout of what HEAD was on when it began: the
/// branch, or the commit of a detached HEAD. Nothing is run after that
/// checkout.
pub proof fn law_clean_tree_returns_to_original_head(
    path: Seq<char>,
    repo_name: Seq<char>,
    events: Seq<EventModel>,
)
    requires
        outcome_of(run(path, repo_name, events).0) matches Some(OutcomeModel::Success(_)),
        clean(run(path, repo_name, events).1),
    ensures
        ({
            let (machine, asked) = run(path, repo_name, events);
            let success = outcome_of(machine)->Some_0->Success_0;
            &&& !success.had_stash
            &&& !ran(asked, CommandModel::Stash)
            &&& !ran(asked, CommandModel::StashPop)
            &&& checked_out_at(asked, asked.len() - 1, success.original_head.reference())
        }),
{
    lemma_run_is_coherent(path, repo_name, events);
    let (machine, asked) = run(path, repo_name, events);
    let s = status_at(asked);
    assert(asked[s].0 == scripted(asked, s));
    assert(!dirty_of(asked));
    assert forall|i: int| 0 <= i < asked.len() implies (#[trigger] asked[i]).0
        != CommandModel::Stash && asked[i].0 != CommandModel::StashPop by {
        assert(asked[i].0 == scripted(asked, i));
    }
    let last = asked.len() - 1;
    assert(asked[last].0 == scripted(asked, last));
}

/// Whichever name the primary branch was found under, an update that goes
/// through has put HEAD back: the checkout of what HEAD was on went well, and
/// after it nothing ran but the pop of the stash, which ran exactly if the
/// update reports a stash.
pub proof fn law_success_restores_original_head(
    path: Seq<char>,
    repo_name: Seq<char>,
    events: Seq<EventModel>,
)
    requires
        outcome_of(run(path, repo_name, events).0) matches Some(OutcomeModel::Success(_)),
    ensures
        ({
            let (machine, asked) = run(path, repo_name, events);
            let success = outcome_of(machine)->Some_0->Success_0;
            let n = asked.len() as int;
            &&& success.had_stash <==> ran(asked, CommandModel::StashPop)
            &&& success.had_stash ==> {
                &&& checked_out_at(asked, n - 2, success.original_head.reference())
                &&& asked[n - 1].0 == CommandModel::StashPop
                &&& asked[n - 1].1 is Ok
            }
            &&& !success.had_stash ==> checked_out_at(
                asked,
                n - 1,
                success.original_head.reference(),
            )
            &&& success.master_branch == MASTER_BRANCH@ || success.master_branch == MAIN_BRANCH@
            &&& valid_branch_name(success.original_head.reference())
        }),
{
    lemma_run_is_coherent(path, repo_name, events);
    lemma_primary_names_valid();
    let (machine, asked) = run(path, repo_name, events);
    let n = asked.len() as int;
    assert(asked[n - 1].0 == scripted(asked, n - 1));
    assert(asked[n - 2].0 == scripted(asked, n - 2));
    if ran(asked, CommandModel::StashPop) {
        let k = choose|k: int| 0 <= k < asked.len() && (#[trigger] asked[k]).0
            == CommandModel::StashPop;
        lemma_pop_place(machine.phase, asked, k);
    }
}

/// What [`update`](crate::update::update) hands back as a success is one:
/// git was asked, in that repository, to check out what HEAD was on, and did;
/// after that it was asked for nothing but, where the result reports a stash,
/// to pop it, and did.
pub proof fn law_successful_update_has_put_head_back<G: Fn(&str, &GitCommand) -> GitReply>(
    git: G,
    repo: RepositoryModel,
    result: ResultModel,
)
    requires
        is_update_of(git, repo, result),
        result.outcome is Success,
    ensures
        result.path == repo.path,
        exists|asked: Seq<Exchange>|
            {
                let success = result.outcome->Success_0;
                let n = asked.len() as int;
                &&& #[trigger] answered_by(git, repo.path, asked)
                &&& success.had_stash ==> {
                    &&& checked_out_at(asked, n - 2, success.original_head.reference())
                    &&& asked[n - 1].0 == CommandModel::StashPop
                    &&& asked[n - 1].1 is Ok
                }
                &&& !success.had_stash ==> checked_out_at(
                    asked,
                    n - 1,
                    success.original_head.reference(),
                )
            },
{
    let events = choose|events: Seq<EventModel>|
        {
            &&& #[trigger] run(repo.path, repo.name, events).0.phase == (PhaseModel::Done {
                result,
            })
            &&& answered_by(git, repo.path, run(repo.path, repo.name, events).1)
            &&& 0 < events.len() <= 12
            &&& events.last() is Elapsed
        };
    law_success_restores_original_head(repo.path, repo.name, events);
    law_results_are_for_their_repository(repo.path, repo.name, events);
    let asked = run(repo.path, repo.name, events).1;
    assert(answered_by(git, repo.path, asked));
}

/// The result of a run is for the path that the machine was made for.
pub proof fn law_results_are_for_their_repository(
    path: Seq<char>,
    repo_name: Seq<char>,
    events: Seq<EventModel>,
)
    ensures
        run(path, repo_name, events).0.phase matches PhaseModel::Done { result } ==> result.path
            == path,
    decreases events.len(),
{
    if events.len() > 0 {
        law_results_are_for_their_repository(path, repo_name, events.drop_last());
        lemma_run_is_coherent(path, repo_name, events.drop_last());
    }
}

/// An update of a working tree with changes that git shelves, if it goes
/// through, reports the stash, shelves before the primary branch is touched
/// (every checkout and the pull come after the stash), and pops the stash as
/// its last act, right after HEAD is back where it was.
pub proof fn law_stash_brackets_the_update(
    path: Seq<char>,
    repo_name: Seq<char>,
    events: Seq<EventModel>,
)
    requires
        outcome_of(run(path, repo_name, events).0) matches Some(OutcomeModel::Success(_)),
        dirty(run(path, repo_name, events).1),
        something_shelved(run(path, repo_name, events).1),
    ensures
        ({
            let (machine, asked) = run(path, repo_name, events);
            let success = outcome_of(machine)->Some_0->Success_0;
            let n = asked.len() as int;
            &&& success.had_stash
            &&& exists|i: int|
                {
                    &&& 0 <= i < n
                    &&& (#[trigger] asked[i]).0 == CommandModel::Stash
                    &&& asked[i].1 is Ok
                    &&& forall|j: int|
                        0 <= j < n && ((#[trigger] asked[j]).0 is Checkout
                            || asked[j].0 is PullFastForward) ==> i < j
                }
            &&& checked_out_at(asked, n - 2, success.original_head.reference())
            &&& asked[n - 1].0 == CommandModel::StashPop
            &&& asked[n - 1].1 is Ok
        }),
{
    lemma_run_is_coherent(path, repo_name, events);
    let (machine, asked) = run(path, repo_name, events);
    let n = asked.len() as int;
    let s = status_at(asked);
    let found = choose|i: int|
        0 <= i < asked.len() && (#[trigger] asked[i]).0 == CommandModel::Status && asked[i].1 is Ok
            && asked[i].1->Ok_0.len() > 0;
    assert(asked[found].0 == scripted(asked, found));
    assert(found == s);
    assert(dirty_of(asked));
    assert(asked[s + 2].0 == scripted(asked, s + 2));
    assert(had_stash_of(asked));
    assert(asked[n - 1].0 == scripted(asked, n - 1));
    assert(asked[n - 2].0 == scripted(asked, n - 2));
    assert forall|j: int|
        0 <= j < n && ((#[trigger] asked[j]).0 is Checkout
            || asked[j].0 is PullFastForward) implies s + 2 < j by {
        assert(asked[j].0 == scripted(asked, j));
    }
}

/// An update during which git finds nothing to shelve (the working tree holds
/// untracked files only, say) reports no stash and never pops: it ends with
/// the checkout of what HEAD was on.
pub proof fn law_nothing_shelved_nothing_popped(
    path: Seq<char>,
    repo_name: Seq<char>,
    events: Seq<EventModel>,
)
    requires
        outcome_of(run(path, repo_name, events).0) matches Some(OutcomeModel::Success(_)),
        nothing_shelved(run(path, repo_name, events).1),
    ensures
        ({
            let (machine, asked) = run(path, repo_name, events);
            let success = outcome_of(machine)->Some_0->Success_0;
            &&& !success.had_stash
            &&& !ran(asked, CommandModel::StashPop)
            &&& checked_out_at(asked, asked.len() - 1, success.original_head.reference())
        }),
{
    lemma_run_is_coherent(path, repo_name, events);
    let (machine, asked) = run(path, repo_name, events);
    let s = status_at(asked);
    if dirty_of(asked) {
        assert(asked[s + 2].0 == scripted(asked, s + 2));
    }
    assert(!had_stash_of(asked));
    assert forall|i: int| 0 <= i < asked.len() implies (#[trigger] asked[i]).0
        != CommandModel::StashPop by {
        assert(asked[i].0 == scripted(asked, i));
    }
    let last = asked.len() - 1;
    assert(asked[last].0 == scripted(asked, last));
}

/// At no point of any run has the stash been popped unless git was asked to
/// stash before and saved something; and an update that fails before the
/// step that pops has not popped, so a stash it created is still there.
pub proof fn law_pop_only_what_was_stashed(
    path: Seq<char>,
    repo_name: Seq<char>,
    events: Seq<EventModel>,
)
    ensures
        ({
            let (machine, asked) = run(path, repo_name, events);
            &&& forall|k: int|
                0 <= k < asked.len() && (#[trigger] asked[k]).0 == CommandModel::StashPop
                    ==> exists|i: int|
                    {
                        &&& 0 <= i < k
                        &&& (#[trigger] asked[i]).0 == CommandModel::Stash
                        &&& asked[i].1 is Ok
                        &&& !mentions(asked[i].1->Ok_0, NOTHING_TO_STASH@)
                    }
            &&& awaited(machine.phase) == Some(CommandModel::StashPop) ==> exists|i: int|
                {
                    &&& 0 <= i < asked.len()
                    &&& (#[trigger] asked[i]).0 == CommandModel::Stash
                    &&& asked[i].1 is Ok
                    &&& !mentions(asked[i].1->Ok_0, NOTHING_TO_STASH@)
                }
            &&& (outcome_of(machine) matches Some(OutcomeModel::Failed(failure)) && failure.step
                != UpdateStep::PoppingStash) ==> !ran(asked, CommandModel::StashPop)
        }),
{
    lemma_run_is_coherent(path, repo_name, events);
    lemma_primary_names_valid();
    let (machine, asked) = run(path, repo_name, events);
    let s = status_at(asked);
    assert forall|k: int|
        0 <= k < asked.len() && (#[trigger] asked[k]).0
            == CommandModel::StashPop implies exists|i: int|
        {
            &&& 0 <= i < k
            &&& (#[trigger] asked[i]).0 == CommandModel::Stash
            &&& asked[i].1 is Ok
            &&& !mentions(asked[i].1->Ok_0, NOTHING_TO_STASH@)
        } by {
        lemma_pop_place(machine.phase, asked, k);
        assert(asked[s + 2].0 == scripted(asked, s + 2));
    }
    if awaited(machine.phase) == Some(CommandModel::StashPop) {
        assert(asked[s + 2].0 == scripted(asked, s + 2));
    }
    if outcome_of(machine) matches Some(OutcomeModel::Failed(failure)) && failure.step
        != UpdateStep::PoppingStash {
        assert forall|k: int| 0 <= k < asked.len() implies (#[trigger] asked[k]).0
            != CommandModel::StashPop by {
            if asked[k].0 == CommandModel::StashPop {
                lemma_pop_place(machine.phase, asked, k);
            }
        }
    }
}

/// Every reply of the record went well.
pub open spec fn all_went_well(asked: Seq<Exchange>) -> bool {
    forall|i: int| 0 <= i < asked.len() ==> (#[trigger] asked[i]).1 is Ok
}

/// A repository without `master`, but with `main`: where the checkout of
/// `master` fails, an update that goes through went on to check out `main`,
/// pulled `main`, and names `main` as the primary branch. Where no checkout of
/// `master` fails, it names `master`.
pub proof fn law_falls_back_to_main(path: Seq<char>, repo_name: Seq<char>, events: Seq<EventModel>)
    requires
        outcome_of(run(path, repo_name, events).0) matches Some(OutcomeModel::Success(_)),
    ensures
        ({
            let (machine, asked) = run(path, repo_name, events);
            let success = outcome_of(machine)->Some_0->Success_0;
            let master_failed = exists|i: int|
                0 <= i < asked.len() && (#[trigger] asked[i]).0 == (CommandModel::Checkout {
                    branch: MASTER_BRANCH@,
                }) && asked[i].1 is Err;
            &&& master_failed ==> success.master_branch == MAIN_BRANCH@
            &&& !master_failed ==> success.master_branch == MASTER_BRANCH@
            &&& success.master_branch == MAIN_BRANCH@ ==> exists|i: int|
                {
                    &&& 0 <= i
                    &&& i + 2 < asked.len()
                    &&& (#[trigger] asked[i]).0 == CommandModel::Checkout { branch: MASTER_BRANCH@ }
                    &&& asked[i].1 is Err
                    &&& checked_out_at(asked, i + 1, MAIN_BRANCH@)
                    &&& asked[i + 2].0 == CommandModel::PullFastForward { branch: MAIN_BRANCH@ }
                    &&& asked[i + 2].1 is Ok
                }
        }),
{
    lemma_run_is_coherent(path, repo_name, events);
    lemma_primary_names_valid();
    let (machine, asked) = run(path, repo_name, events);
    let b = checkout_at(asked);
    assert(asked[b].0 == scripted(asked, b));
    assert(asked[b + 1].0 == scripted(asked, b + 1));
    assert(asked[b + 2].0 == scripted(asked, b + 2));
    assert forall|i: int|
        0 <= i < asked.len() && (#[trigger] asked[i]).0 == (CommandModel::Checkout {
            branch: MASTER_BRANCH@,
        }) && asked[i].1 is Err implies i == b by {
        assert(asked[i].0 == scripted(asked, i));
    }
}

/// A repository with neither `master` nor `main`: where every checkout of
/// either fails, an update that got as far as checking out fails at the step
/// `CheckingOut`, after exactly one attempt at each name, and what it reports
/// is the failure of the second attempt, the one at `main`.
pub proof fn law_no_primary_branch_fails_checking_out(
    path: Seq<char>,
    repo_name: Seq<char>,
    events: Seq<EventModel>,
)
    requires
        outcome_of(run(path, repo_name, events).0) is Some,
        ran(run(path, repo_name, events).1, CommandModel::Checkout { branch: MASTER_BRANCH@ }),
        forall|i: int|
            0 <= i < run(path, repo_name, events).1.len() && ((#[trigger] run(
                path,
                repo_name,
                events,
            ).1[i]).0 == (CommandModel::Checkout { branch: MASTER_BRANCH@ }) || run(
                path,
                repo_name,
                events,
            ).1[i].0 == (CommandModel::Checkout { branch: MAIN_BRANCH@ })) ==> run(
                path,
                repo_name,
                events,
            ).1[i].1 is Err,
    ensures
        ({
            let (machine, asked) = run(path, repo_name, events);
            let n = asked.len() as int;
            &&& n >= 2
            &&& asked[n - 2].0 == CommandModel::Checkout { branch: MASTER_BRANCH@ }
            &&& asked[n - 1].0 == CommandModel::Checkout { branch: MAIN_BRANCH@ }
            &&& asked[n - 1].1 is Err
            &&& outcome_of(machine) == Some(
                OutcomeModel::Failed(
                    FailureModel {
                        error: chained(
                            checkout_context(MAIN_BRANCH@),
                            asked[n - 1].1->Err_0.message,
                        ),
                        step: UpdateStep::CheckingOut,
                    },
                ),
            )
        }),
{
    lemma_run_is_coherent(path, repo_name, events);
    lemma_primary_names_valid();
    let (machine, asked) = run(path, repo_name, events);
    let n = asked.len() as int;
    let b = checkout_at(asked);
    let p = pull_at(asked);
    let i = choose|i: int|
        0 <= i < asked.len() && (#[trigger] asked[i]).0 == (CommandModel::Checkout {
            branch: MASTER_BRANCH@,
        });
    assert(asked[i].0 == scripted(asked, i));
    assert(i == b || i == p + 1);
    assert(b < n);
    assert(asked[b].0 == scripted(asked, b));
    assert(asked[b].1 is Err);
    if b + 1 < n {
        assert(asked[b + 1].0 == scripted(asked, b + 1));
    }
    assert(n - 1 == b + 1);
}

/// A detached HEAD: where git answers the first question with `HEAD`, an
/// update that goes through asked for the current commit next, reports HEAD as
/// detached at that commit, and checked that very commit out before it ended,
/// as its last act but for the pop of a stash.
pub proof fn law_detached_head_is_restored(
    path: Seq<char>,
    repo_name: Seq<char>,
    events: Seq<EventModel>,
)
    requires
        outcome_of(run(path, repo_name, events).0) matches Some(OutcomeModel::Success(_)),
        run(path, repo_name, events).1.len() > 0,
        run(path, repo_name, events).1[0].1 == Ok::<Seq<char>, GitErrorModel>(DETACHED_HEAD@),
    ensures
        ({
            let (machine, asked) = run(path, repo_name, events);
            let success = outcome_of(machine)->Some_0->Success_0;
            let n = asked.len() as int;
            &&& n >= 2
            &&& asked[1].0 == CommandModel::CurrentCommit
            &&& asked[1].1 is Ok
            &&& success.original_head == HeadModel::DetachedAt(asked[1].1->Ok_0)
            &&& checked_out_at(
                asked,
                if success.had_stash {
                    n - 2
                } else {
                    n - 1
                },
                asked[1].1->Ok_0,
            )
        }),
{
    lemma_run_is_coherent(path, repo_name, events);
    let (machine, asked) = run(path, repo_name, events);
    let p = pull_at(asked);
    assert(asked[1].0 == scripted(asked, 1));
    assert(asked[p + 1].0 == scripted(asked, p + 1));
}

/// Success is owed: an update that is over, in which git did all it was
/// asked, on a HEAD whose reference may be handed to git, went through. It
/// found the primary branch as `master` and put HEAD back where it was.
pub proof fn law_update_succeeds_when_git_does(
    path: Seq<char>,
    repo_name: Seq<char>,
    events: Seq<EventModel>,
)
    requires
        outcome_of(run(path, repo_name, events).0) is Some,
        all_went_well(run(path, repo_name, events).1),
        valid_branch_name(head_of(run(path, repo_name, events).1).reference()),
    ensures
        ({
            let (machine, asked) = run(path, repo_name, events);
            &&& outcome_of(machine) matches Some(OutcomeModel::Success(success))
            &&& success.master_branch == MASTER_BRANCH@
            &&& success.original_head == head_of(asked)
            &&& ran(asked, CommandModel::Checkout { branch: success.original_head.reference() })
        }),
{
    lemma_run_is_coherent(path, repo_name, events);
    let (machine, asked) = run(path, repo_name, events);
    let n = asked.len() as int;
    if n > 0 {
        assert(asked[n - 1].1 is Ok);
    }
    let p = pull_at(asked);
    let b = checkout_at(asked);
    assert(asked[b].1 is Ok);
    assert(asked[p + 1].0 == scripted(asked, p + 1));
}

/// A failure ends the update: where an update failed, either the last
/// command that was run is the one that failed, the failure names the step
/// that this command belongs to, and its description ends with what git
/// reported; or HEAD was to be put back on a reference that git may not be
/// handed, and the failure names the step `RestoringBranch`. Every command
/// before went well, but possibly the checkout of `master`.
pub proof fn law_failure_ends_the_update(
    path: Seq<char>,
    repo_name: Seq<char>,
    events: Seq<EventModel>,
)
    requires
        outcome_of(run(path, repo_name, events).0) matches Some(OutcomeModel::Failed(_)),
    ensures
        ({
            let (machine, asked) = run(path, repo_name, events);
            let failure = outcome_of(machine)->Some_0->Failed_0;
            let n = asked.len() as int;
            &&& failure.step != UpdateStep::Started
            &&& failure.step != UpdateStep::Completed
            &&& forall|i: int|
                0 <= i < n - 1 ==> (#[trigger] asked[i]).1 is Ok || asked[i].0
                    == (CommandModel::Checkout { branch: MASTER_BRANCH@ })
            &&& {
                ||| {
                    &&& n >= 1
                    &&& asked[n - 1].1 is Err
                    &&& failure.step == step_at(asked, n - 1)
                    &&& failure.error == chained(
                        context_at(asked, n - 1),
                        asked[n - 1].1->Err_0.message,
                    )
                }
                ||| {
                    &&& n >= 1
                    &&& asked[n - 1].1 is Ok
                    &&& !valid_branch_name(head_of(asked).reference())
                    &&& failure.step == UpdateStep::RestoringBranch
                    &&& failure.error == refused_name(head_of(asked).reference()).message
                }
            }
        }),
{
    lemma_run_is_coherent(path, repo_name, events);
    let (machine, asked) = run(path, repo_name, events);
    let n = asked.len() as int;
    assert forall|i: int| 0 <= i < n - 1 implies (#[trigger] asked[i]).1 is Ok || asked[i].0 == (
    CommandModel::Checkout { branch: MASTER_BRANCH@ }) by {
        assert(asked[i].0 == scripted(asked, i));
    }
    if n >= 1 {
        assert(asked[n - 1].0 == scripted(asked, n - 1));
    }
}

/// Git treats the run recorded in `second` as it treated the one recorded in
/// `first`: it reports the same HEAD, and each command that both runs gave
/// out went well in the one if it did in the other.
pub open spec fn answered_alike(first: Seq<Exchange>, second: Seq<Exchange>) -> bool {
    &&& second.len() > 0 ==> second[0].1 == first[0].1
    &&& second.len() > 1 && detached(first) ==> second[1].1 == first[1].1
    &&& forall|i: int|
        0 <= i < first.len() && i < second.len() ==> ((#[trigger] second[i]).1 is Ok
            <==> first[i].1 is Ok)
}

/// Updating twice: after an update of a clean working tree that went
/// through, a second update that finds the tree clean again, HEAD where the
/// first left it, and git as willing as before, goes through too, with the
/// same outcome, and ends with the same checkout as the first: the
/// repository is on the same branch, or commit, after both.
pub proof fn law_update_is_idempotent(
    path: Seq<char>,
    repo_name: Seq<char>,
    first: Seq<EventModel>,
    second: Seq<EventModel>,
)
    requires
        outcome_of(run(path, repo_name, first).0) matches Some(OutcomeModel::Success(_)),
        clean(run(path, repo_name, first).1),
        outcome_of(run(path, repo_name, second).0) is Some,
        clean(run(path, repo_name, second).1),
        answered_alike(run(path, repo_name, first).1, run(path, repo_name, second).1),
    ensures
        ({
            let (before, asked_before) = run(path, repo_name, first);
            let (after, asked_after) = run(path, repo_name, second);
            let success = outcome_of(before)->Some_0->Success_0;
            &&& outcome_of(after) == outcome_of(before)
            &&& checked_out_at(
                asked_before,
                asked_before.len() - 1,
                success.original_head.reference(),
            )
            &&& checked_out_at(
                asked_after,
                asked_after.len() - 1,
                success.original_head.reference(),
            )
        }),
{
    law_clean_tree_returns_to_original_head(path, repo_name, first);
    lemma_run_is_coherent(path, repo_name, first);
    lemma_run_is_coherent(path, repo_name, second);
    let (before, one) = run(path, repo_name, first);
    let (after, two) = run(path, repo_name, second);
    let n = two.len() as int;
    let s = status_at(one);
    assert(one[s].0 == scripted(one, s));
    assert(!dirty_of(one));
    let b = checkout_at(one);
    assert(b == s + 2);
    assert(n >= 1);
    assert(two[0].0 == scripted(two, 0));
    assert(detached(two) == detached(one));
    assert(status_at(two) == s);
    if n > 1 {
        assert(two[1].0 == scripted(two, 1));
    }
    if n > s {
        assert(two[s].0 == scripted(two, s));
        assert(!dirty_of(two));
        assert(checkout_at(two) == b);
    }
    if n > b {
        assert(two[b].0 == scripted(two, b));
        assert(one[b].0 == scripted(one, b));
        assert(primary_of(two) == primary_of(one));
        assert(pull_at(two) == pull_at(one));
    }
    assert(one[n - 1].0 == scripted(one, n - 1)) by {
        assert(n <= one.len()) by {
            if n > one.len() {
                assert(n > b);
            }
        }
    }
    assert(two[n - 1].0 == scripted(two, n - 1));
    assert(n == one.len());
    assert(head_of(two) == head_of(one));
}

/// What one transition asks for: at most one command, as the last thing and
/// right after the hook that announces its execution, and then it is the
/// command whose reply the machine waits for next. A machine that waits for a
/// reply either has just given its command out or has not moved at all. The
/// step `Completed` is announced exactly by the transition that ends the
/// steps, and the closing hooks are called exactly by the one that takes the
/// time: `on_complete` with the result, then `on_completion_status`.
pub proof fn law_hooks_and_commands_are_in_order(machine: MachineModel, event: EventModel)
    ensures
        ({
            let (next, effects) = transition(machine, event);
            let n = effects.len() as int;
            &&& next.path == machine.path
            &&& next.repo_name == machine.repo_name
            &&& forall|i: int| 0 <= i < n - 1 ==> !((#[trigger] effects[i]) is Run)
            &&& n > 0 && effects[n - 1] is Run ==> {
                &&& n >= 2
                &&& effects[n - 2] is StepExecute
                &&& awaited(next.phase) == Some(effects[n - 1]->Run_0)
            }
            &&& awaited(next.phase) is Some ==> (n > 0 && effects[n - 1] is Run) || (next
                == machine && n == 0)
            &&& (next.phase is Finishing && !(machine.phase is Finishing)) <==> (n > 0
                && effects[n - 1] == EffectModel::Step(UpdateStep::Completed))
            &&& forall|i: int|
                0 <= i < n - 1 ==> (#[trigger] effects[i]) != EffectModel::Step(
                    UpdateStep::Completed,
                )
            &&& (next.phase is Done && !(machine.phase is Done)) <==> (n == 2
                && effects[0] is Complete)
            &&& n == 2 && effects[0] is Complete ==> {
                &&& machine.phase is Finishing
                &&& next.phase == PhaseModel::Done { result: effects[0]->Complete_0 }
                &&& effects[0]->Complete_0.path == machine.path
                &&& effects[0]->Complete_0.outcome == machine.phase->Finishing_outcome
                &&& effects[1] is CompletionStatus
            }
            &&& forall|i: int| 0 <= i < n && n != 2 ==> !((#[trigger] effects[i]) is Complete)
        }),
{
}

/// No name that could be taken for an option, or that holds a character
/// with a meaning to a shell, ever reaches git: whenever the machine gives
/// out a checkout or a pull, the branch it names is a valid one.
pub proof fn law_only_valid_names_reach_git(machine: MachineModel, event: EventModel)
    ensures
        ({
            let effects = transition(machine, event).1;
            forall|i: int|
                0 <= i < effects.len() ==> match #[trigger] effects[i] {
                    EffectModel::Run(CommandModel::Checkout { branch }) => valid_branch_name(
                        branch,
                    ),
                    EffectModel::Run(CommandModel::PullFastForward { branch }) => valid_branch_name(
                        branch,
                    ),
                    _ => true,
                }
        }),
{
    lemma_primary_names_valid();
}

/// What happens to a scheduler.
pub ghost enum SchedulerEvent {
    /// The driver asks for the next job, and starts it if there is one.
    Ask,
    /// A worker reports this result under this index.
    Report { index: int, result: ResultModel },
}

/// The scheduler after `event`.
pub open spec fn scheduler_after(scheduler: SchedulerModel, event: SchedulerEvent) -> SchedulerModel {
    match event {
        SchedulerEvent::Ask => if scheduler.next_job() is Some {
            scheduler.dispatched()
        } else {
            scheduler
        },
        SchedulerEvent::Report { index, result } => scheduler.completed(index, result),
    }
}

/// The scheduler for `repos` and `limit` after `events`, one by one.
pub open spec fn scheduled(repos: Seq<Seq<char>>, limit: nat, events: Seq<SchedulerEvent>) -> SchedulerModel
    decreases events.len(),
{
    if events.len() == 0 {
        SchedulerModel::fresh(repos, limit)
    } else {
        scheduler_after(scheduled(repos, limit, events.drop_last()), events.last())
    }
}

/// Whatever happens to a scheduler in whatever order, it stays well formed:
/// it keeps its repositories and their order, hands each out at most once,
/// and never has more running than its limit.
pub proof fn law_scheduler_stays_well_formed(
    repos: Seq<Seq<char>>,
    limit: nat,
    events: Seq<SchedulerEvent>,
)
    requires
        limit >= 1,
    ensures
        scheduled(repos, limit, events).wf(),
        scheduled(repos, limit, events).repos == repos,
        scheduled(repos, limit, events).limit == limit,
        in_flight(scheduled(repos, limit, events).slots) <= limit,
    decreases events.len(),
{
    if events.len() == 0 {
        lemma_in_flight_zero(SchedulerModel::fresh(repos, limit).slots);
    } else {
        law_scheduler_stays_well_formed(repos, limit, events.drop_last());
        let before = scheduled(repos, limit, events.drop_last());
        match events.last() {
            SchedulerEvent::Ask => {
                if before.next_job() is Some {
                    lemma_in_flight_update(
                        before.slots,
                        before.started as int,
                        SlotModel::Running,
                    );
                }
            },
            SchedulerEvent::Report { index, result } => {
                if before.accepts(index, result) {
                    lemma_in_flight_update(before.slots, index, SlotModel::Finished(result));
                }
            },
        }
    }
}

/// A workspace of N repositories yields N results, and the result at each
/// place is for the repository at that place of the input, in whatever
/// order the workers reported. So two runs over the same repositories, however
/// differently they went, yield results for the same paths in the same
/// order.
pub proof fn law_results_keep_input_order(
    repos: Seq<Seq<char>>,
    limit: nat,
    events: Seq<SchedulerEvent>,
    other_limit: nat,
    other_events: Seq<SchedulerEvent>,
)
    requires
        limit >= 1,
        other_limit >= 1,
        scheduled(repos, limit, events).done(),
        scheduled(repos, other_limit, other_events).done(),
    ensures
        ({
            let results = scheduled(repos, limit, events).results();
            let other = scheduled(repos, other_limit, other_events).results();
            &&& results.len() == repos.len()
            &&& other.len() == repos.len()
            &&& forall|i: int| 0 <= i < repos.len() ==> (#[trigger] results[i]).path == repos[i]
            &&& forall|i: int|
                0 <= i < repos.len() ==> (#[trigger] other[i]).path == results[i].path
        }),
{
    law_scheduler_stays_well_formed(repos, limit, events);
    law_scheduler_stays_well_formed(repos, other_limit, other_events);
    let one = scheduled(repos, limit, events);
    let two = scheduled(repos, other_limit, other_events);
    assert forall|i: int| 0 <= i < repos.len() implies (#[trigger] one.results()[i]).path
        == repos[i] && two.results()[i].path == repos[i] by {
        assert(one.slots[i] is Finished);
        assert(two.slots[i] is Finished);
    }
}

/// Results of different repositories may be reported in either order, to the
/// same effect; and a report, taken or not, whatever it says, leaves every
/// other repository as it is: a failure stops no other update.
pub proof fn law_reports_do_not_interfere(
    scheduler: SchedulerModel,
    index: int,
    result: ResultModel,
    other_index: int,
    other_result: ResultModel,
)
    requires
        index != other_index,
    ensures
        scheduler.completed(index, result).completed(other_index, other_result)
            == scheduler.completed(other_index, other_result).completed(index, result),
        forall|i: int|
            0 <= i < scheduler.slots.len() && i != index ==> #[trigger] scheduler.completed(
                index,
                result,
            ).slots[i] == scheduler.slots[i],
        scheduler.completed(index, result).completed(index, other_result) == scheduler.completed(
            index,
            result,
        ) || !scheduler.accepts(index, result),
{
    let one = scheduler.completed(index, result).completed(other_index, other_result);
    let two = scheduler.completed(other_index, other_result).completed(index, result);
    assert(one.slots =~= two.slots);
}

/// In sequential mode no two repositories are ever in the course of being
/// updated at once, and a repository is handed out only when every one
/// before it in the input has its result.
pub proof fn law_sequential_mode_runs_one_at_a_time(
    repos: Seq<Seq<char>>,
    events: Seq<SchedulerEvent>,
)
    ensures
        ({
            let scheduler = scheduled(repos, ExecutionMode::Sequential.limit(), events);
            &&& in_flight(scheduler.slots) <= 1
            &&& scheduler.next_job() matches Some(index) ==> {
                &&& in_flight(scheduler.slots) == 0
                &&& forall|i: int| 0 <= i < index ==> (#[trigger] scheduler.slots[i]) is Finished
            }
        }),
{
    law_scheduler_stays_well_formed(repos, ExecutionMode::Sequential.limit(), events);
    let scheduler = scheduled(repos, ExecutionMode::Sequential.limit(), events);
    lemma_in_flight_zero(scheduler.slots);
}

/// In parallel mode repositories may be updated side by side: of two or more
/// repositories, the first two are handed out one right after the other,
/// before either has a result.
pub proof fn law_parallel_mode_may_overlap(repos: Seq<Seq<char>>)
    requires
        repos.len() >= 2,
    ensures
        ({
            let asks = seq![SchedulerEvent::Ask, SchedulerEvent::Ask];
            let scheduler = scheduled(repos, ExecutionMode::Parallel.limit(), asks);
            &&& scheduler.slots[0] is Running
            &&& scheduler.slots[1] is Running
            &&& in_flight(scheduler.slots) == 2
        }),
{
    let limit = ExecutionMode::Parallel.limit();
    let asks = seq![SchedulerEvent::Ask, SchedulerEvent::Ask];
    let fresh = SchedulerModel::fresh(repos, limit);
    assert(asks.drop_last() =~= seq![SchedulerEvent::Ask]);
    assert(asks.drop_last().drop_last() =~= Seq::<SchedulerEvent>::empty());
    assert(scheduled(repos, limit, Seq::<SchedulerEvent>::empty()) == fresh) by {
        reveal_with_fuel(scheduled, 1);
    }
    lemma_in_flight_zero(fresh.slots);
    let one = scheduled(repos, limit, asks.drop_last());
    assert(one == scheduler_after(fresh, SchedulerEvent::Ask)) by {
        reveal_with_fuel(scheduled, 2);
    }
    assert(fresh.next_job() is Some);
    assert(one == fresh.dispatched());
    lemma_in_flight_update(fresh.slots, 0, SlotModel::Running);
    assert(in_flight(one.slots) == 1);
    assert(one.next_job() is Some);
    let two = scheduled(repos, limit, asks);
    assert(two == scheduler_after(one, SchedulerEvent::Ask));
    assert(two == one.dispatched());
    lemma_in_flight_update(one.slots, 1, SlotModel::Running);
}

/// The exit code depends on nothing but how many updates went through and
/// how many failed: two batches with the same tags, in whatever order, get
/// the same code.
pub proof fn law_exit_code_ignores_order(results: Seq<ResultModel>, other: Seq<ResultModel>)
    requires
        tags(results).to_multiset() == tags(other).to_multiset(),
    ensures
        exit_code_of(results) == exit_code_of(other),
{
}

/// The exit code is 0 exactly where every update went through (so also for
/// no update at all), 2 exactly where there were updates and all failed, and
/// 1 exactly where some went through and some failed.
pub proof fn law_exit_code_classifies(results: Seq<ResultModel>)
    ensures
        exit_code_of(results) == 0 <==> forall|i: int|
            0 <= i < results.len() ==> (#[trigger] results[i]).outcome is Success,
        exit_code_of(results) == 2 <==> results.len() > 0 && forall|i: int|
            0 <= i < results.len() ==> (#[trigger] results[i]).outcome is Failed,
        exit_code_of(results) == 1 <==> (exists|i: int|
            0 <= i < results.len() && (#[trigger] results[i]).outcome is Success) && (exists|
            i: int,
        | 0 <= i < results.len() && (#[trigger] results[i]).outcome is Failed),
        exit_code_of(results) == 0 || exit_code_of(results) == 1 || exit_code_of(results) == 2,
{
    broadcast use vstd::seq_lib::group_to_multiset_ensures;

    let t = tags(results);
    lemma_counts_add_up(results);
    assert(t.contains(true) <==> exists|i: int|
        0 <= i < results.len() && (#[trigger] results[i]).outcome is Success) by {
        if t.contains(true) {
            let i = choose|i: int| 0 <= i < t.len() && t[i] == true;
            assert(results[i].outcome is Success);
        }
        if exists|i: int| 0 <= i < results.len() && (#[trigger] results[i]).outcome is Success {
            let i = choose|i: int|
                0 <= i < results.len() && (#[trigger] results[i]).outcome is Success;
            assert(t[i] == true);
        }
    }
    assert(t.contains(false) <==> exists|i: int|
        0 <= i < results.len() && (#[trigger] results[i]).outcome is Failed) by {
        if t.contains(false) {
            let i = choose|i: int| 0 <= i < t.len() && t[i] == false;
            assert(results[i].outcome is Failed);
        }
        if exists|i: int| 0 <= i < results.len() && (#[trigger] results[i]).outcome is Failed {
            let i = choose|i: int|
                0 <= i < results.len() && (#[trigger] results[i]).outcome is Failed;
            assert(t[i] == false);
        }
    }
}

} // verus!
