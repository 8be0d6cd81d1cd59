//! The update of one repository from beginning to end: the loop that drives
//! the update machine, given the means to run git.

use crate::git::{
    lemma_primary_names_valid, reply_view, well_named, CommandModel, GitCommand, GitReply,
};
use crate::history::{recorded, run, Exchange};
use crate::machine::{
    awaited, effects_view, transition, EffectModel, Event, EventModel, MachineModel, PhaseModel,
    UpdateMachine,
};
use crate::repo::{Repository, RepositoryModel, ResultModel, UpdateCallbacks, UpdateResult};
use std::time::{Duration, Instant};
use vstd::prelude::*;

verus! {

/// A point in time, as `std::time::Instant` has it. Nothing is known of one
/// but that it can be asked how long ago it was.
#[verifier::external_type_specification]
#[verifier::external_body]
pub struct ExInstant(Instant);

/// `Instant::now`: the current point in time. Nothing is claimed of it.
#[verifier::external_body]
fn now() -> Instant {
    Instant::now()
}

/// `Instant::elapsed`: the time that has passed since `start`. Nothing is
/// claimed of it.
#[verifier::external_body]
fn elapsed_since(start: &Instant) -> Duration {
    start.elapsed()
}

/// How many events a machine in `phase` takes at most until it is done.
pub open spec fn remaining(phase: PhaseModel) -> nat {
    match phase {
        PhaseModel::Idle => 12,
        PhaseModel::DetectingBranch => 11,
        PhaseModel::ResolvingCommit => 10,
        PhaseModel::CheckingChanges { .. } => 9,
        PhaseModel::Fetching { .. } => 8,
        PhaseModel::Stashing { .. } => 7,
        PhaseModel::CheckingOutMaster { .. } => 6,
        PhaseModel::CheckingOutMain { .. } => 5,
        PhaseModel::Pulling { .. } => 4,
        PhaseModel::RestoringBranch { .. } => 3,
        PhaseModel::PoppingStash { .. } => 2,
        PhaseModel::Finishing { .. } => 1,
        PhaseModel::Done { .. } => 0,
    }
}

/// `event` is the one that a machine in `phase` waits for.
pub open spec fn expected(phase: PhaseModel, event: EventModel) -> bool {
    match phase {
        PhaseModel::Idle => event is Begin,
        PhaseModel::Finishing { .. } => event is Elapsed,
        PhaseModel::Done { .. } => false,
        _ => event is Reply,
    }
}

/// `git`, run in the repository at `path`, may answer `command` with
/// `reply`.
pub open spec fn may_answer<G: Fn(&str, &GitCommand) -> GitReply>(
    git: G,
    path: Seq<char>,
    exchange: Exchange,
) -> bool {
    exists|place: &str, command: GitCommand, reply: GitReply|
        {
            &&& place@ == path
            &&& command@ == exchange.0
            &&& reply_view(reply) == exchange.1
            &&& call_ensures(git, (place, &command), reply)
        }
}

/// Every exchange of `asked` is one that `git` may have had in the
/// repository at `path`.
pub open spec fn answered_by<G: Fn(&str, &GitCommand) -> GitReply>(
    git: G,
    path: Seq<char>,
    asked: Seq<Exchange>,
) -> bool {
    forall|i: int| 0 <= i < asked.len() ==> may_answer(git, path, #[trigger] asked[i])
}

/// `result` is the result of an update of `repo` through `git`: a run of the
/// machine for `repo` ends with it, after at most twelve events, the last of
/// which is the time taken, and every reply of that run is one that `git` may
/// give, in that repository, to the command that the machine waited for.
pub open spec fn is_update_of<G: Fn(&str, &GitCommand) -> GitReply>(
    git: G,
    repo: RepositoryModel,
    result: ResultModel,
) -> bool {
    exists|events: Seq<EventModel>|
        {
            &&& #[trigger] run(repo.path, repo.name, events).0.phase == (PhaseModel::Done {
                result,
            })
            &&& answered_by(git, repo.path, run(repo.path, repo.name, events).1)
            &&& 0 < events.len() <= 12
            &&& events.last() is Elapsed
        }
}

/// The event that a machine waits for takes it nearer to the end. If the
/// machine then waits for a reply, the command was given out just now, as the
/// last thing asked for, and may be handed to git; if it waits for none, no
/// command was given out. Only the time that the steps took ends the update,
/// and the result is then for the path of the machine.
pub proof fn lemma_expected_event_advances(machine: MachineModel, event: EventModel)
    requires
        expected(machine.phase, event),
    ensures
        ({
            let (next, effects) = transition(machine, event);
            let n = effects.len() as int;
            &&& remaining(next.phase) < remaining(machine.phase)
            &&& next.path == machine.path
            &&& forall|i: int| 0 <= i < n - 1 ==> !((#[trigger] effects[i]) is Run)
            &&& match awaited(next.phase) {
                Some(command) => {
                    &&& n > 0
                    &&& effects[n - 1] == EffectModel::Run(command)
                    &&& well_named(command)
                },
                None => {
                    &&& forall|i: int| 0 <= i < n ==> !((#[trigger] effects[i]) is Run)
                    &&& next.phase is Finishing || next.phase is Done
                },
            }
            &&& next.phase matches PhaseModel::Done { result } ==> event is Elapsed && result.path
                == machine.path
        }),
{
    lemma_primary_names_valid();
}

/// Updates `repo`: drives a machine from its first event to its last, calling
/// the hooks of `callbacks` and running through `git` the commands that the
/// machine asks for, in order, and hands back the result. The time is taken
/// from before the first event to the end of the steps.
///
/// `git` is handed the path of the repository and one command at a time, and
/// is never handed a command that names an invalid branch. The update is
/// over after at most twelve events.
pub fn update<C, G>(repo: &Repository, callbacks: &C, git: &G) -> (result: UpdateResult) where
    C: UpdateCallbacks,
    G: Fn(&str, &GitCommand) -> GitReply,

    requires
        forall|place: &str, command: &GitCommand|
            place@ == repo@.path && well_named(command@) ==> call_requires(
                *git,
                (place, command),
            ),
    ensures
        result@.path == repo@.path,
        is_update_of(*git, repo@, result@),
{
    let started = now();
    let mut machine = UpdateMachine::new(repo.path.clone(), repo.name.clone());
    let mut event = Event::Begin;
    let ghost path = repo@.path;
    let ghost name = repo@.name;
    let ghost mut events: Seq<EventModel> = Seq::empty();
    loop
        invariant_except_break
            expected(machine@.phase, event@),
            event matches Event::Reply(reply) ==> awaited(machine@.phase) is Some && may_answer(
                *git,
                path,
                (awaited(machine@.phase)->Some_0, reply_view(reply)),
            ),
        invariant
            path == repo@.path,
            name == repo@.name,
            forall|place: &str, command: &GitCommand|
                place@ == path && well_named(command@) ==> call_requires(*git, (place, command)),
            run(path, name, events).0 == machine@,
            machine@.path == path,
            answered_by(*git, path, run(path, name, events).1),
            events.len() + remaining(machine@.phase) <= 12,
        ensures
            machine@.phase matches PhaseModel::Done { result } && result.path == path,
            run(path, name, events).0 == machine@,
            answered_by(*git, path, run(path, name, events).1),
            0 < events.len() <= 12,
            events.last() is Elapsed,
        decreases remaining(machine@.phase),
    {
        let ghost before = machine@;
        let ghost asked = run(path, name, events).1;
        let ghost given = event@;
        proof {
            lemma_expected_event_advances(before, given);
            let next_events = events.push(given);
            assert(next_events.drop_last() =~= events);
            assert(next_events.last() == given);
            let next_asked = recorded(before, asked, given);
            assert(run(path, name, next_events).1 == next_asked);
            assert forall|i: int| 0 <= i < next_asked.len() implies may_answer(
                *git,
                path,
                #[trigger] next_asked[i],
            ) by {
                if i < asked.len() {
                    assert(next_asked[i] == asked[i]);
                }
            }
            events = next_events;
        }
        let (next, effects) = machine.advance(event);
        machine = next;
        assert(machine@ == transition(before, given).0);
        assert(effects_view(effects@) == transition(before, given).1);
        let mut reply: Option<GitReply> = None;
        let mut i: usize = 0;
        while i < effects.len()
            invariant
                forall|place: &str, command: &GitCommand|
                    place@ == path && well_named(command@) ==> call_requires(
                        *git,
                        (place, command),
                    ),
                path == repo@.path,
                i <= effects@.len(),
                reply matches Some(given) ==> i == effects@.len() && awaited(machine@.phase)
                    is Some && may_answer(
                    *git,
                    path,
                    (awaited(machine@.phase)->Some_0, reply_view(given)),
                ),
                reply is None ==> forall|j: int|
                    0 <= j < i ==> !((#[trigger] effects_view(effects@)[j]) is Run),
                forall|j: int|
                    0 <= j < effects@.len() - 1 ==> !((#[trigger] effects_view(effects@)[j])
                        is Run),
                match awaited(machine@.phase) {
                    Some(command) => {
                        &&& effects@.len() > 0
                        &&& effects_view(effects@)[effects@.len() - 1] == EffectModel::Run(command)
                        &&& well_named(command)
                    },
                    None => forall|j: int|
                        0 <= j < effects@.len() ==> !((#[trigger] effects_view(effects@)[j])
                            is Run),
                },
            decreases effects@.len() - i,
        {
            assert(effects_view(effects@)[i as int] == effects@[i as int]@);
            match effects[i].command() {
                Some(command) => {
                    let answer = git(repo.path.as_str(), command);
                    assert(may_answer(*git, path, (command@, reply_view(answer))));
                    reply = Some(answer);
                },
                None => {
                    effects[i].notify(callbacks);
                },
            }
            i += 1;
        }
        match reply {
            Some(given) => {
                event = Event::Reply(given);
            },
            None => {
                if machine.awaits_elapsed() {
                    event = Event::Elapsed(elapsed_since(&started));
                } else {
                    break ;
                }
            },
        }
    }
    match machine.into_result() {
        Some(result) => result,
        None => unreached(),
    }
}

} // verus!
