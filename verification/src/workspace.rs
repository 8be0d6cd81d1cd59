//! A workspace of repositories: which of the entries of a directory are
//! repositories, the scheduler that hands their updates out and collects what
//! comes back, and the update of all of them, one at a time or side by side.

use crate::config::Config;
use crate::git::{well_named, GitCommand, GitReply};
use crate::repo::{Repository, RepositoryModel, ResultModel, UpdateCallbacks, UpdateResult};
use crate::text::texts;
use crate::update::{is_update_of, update};
use rayon::iter::{IntoParallelRefIterator, ParallelIterator};
use rayon::ThreadPool;
use vstd::prelude::*;

verus! {

/// An entry of the workspace directory, as far as discovery looks at it.
#[derive(Debug, PartialEq, Eq)]
pub struct DirectoryEntry {
    /// The path of the entry.
    pub path: String,
    /// The last component of the path, where it has one that is text.
    pub name: Option<String>,
    /// Whether the entry is a directory.
    pub is_dir: bool,
    /// Whether the entry holds the directory that marks a repository.
    pub has_git_dir: bool,
}

/// A [`DirectoryEntry`] as a plain value.
pub ghost struct EntryModel {
    pub path: Seq<char>,
    pub name: Option<Seq<char>>,
    pub is_dir: bool,
    pub has_git_dir: bool,
}

impl View for DirectoryEntry {
    type V = EntryModel;

    open spec fn view(&self) -> EntryModel {
        EntryModel {
            path: self.path@,
            name: match self.name {
                Some(name) => Some(name@),
                None => None,
            },
            is_dir: self.is_dir,
            has_git_dir: self.has_git_dir,
        }
    }
}

/// The plain values of `entries`, in order.
pub open spec fn entries_view(entries: Seq<DirectoryEntry>) -> Seq<EntryModel> {
    Seq::new(entries.len(), |i: int| entries[i]@)
}

/// The plain values of `repos`, in order.
pub open spec fn repos_view(repos: Seq<Repository>) -> Seq<RepositoryModel> {
    Seq::new(repos.len(), |i: int| repos[i]@)
}

/// The repository that `entry` is, if it is one.
pub open spec fn as_repository(entry: EntryModel) -> RepositoryModel {
    RepositoryModel {
        path: entry.path,
        name: match entry.name {
            Some(name) => name,
            None => crate::constants::DEFAULT_REPO_NAME@,
        },
    }
}

/// The repositories among `entries`: the directories that hold the marker,
/// in the order of the entries. What lies deeper is not looked at.
pub open spec fn repositories(entries: Seq<EntryModel>) -> Seq<RepositoryModel>
    decreases entries.len(),
{
    if entries.len() == 0 {
        Seq::empty()
    } else {
        let before = repositories(entries.drop_last());
        if entries.last().is_dir && entries.last().has_git_dir {
            before.push(as_repository(entries.last()))
        } else {
            before
        }
    }
}

/// Whether `entry` is a repository: it holds the marker directory.
pub fn is_git_repo(entry: &DirectoryEntry) -> (r: bool)
    ensures
        r == entry@.has_git_dir,
{
    entry.has_git_dir
}

/// The repositories among the entries of a directory.
pub fn find_git_repos(entries: &Vec<DirectoryEntry>) -> (r: Vec<Repository>)
    ensures
        repos_view(r@) == repositories(entries_view(entries@)),
{
    let mut found: Vec<Repository> = Vec::new();
    let mut i: usize = 0;
    assert(entries_view(entries@).take(0) =~= Seq::<EntryModel>::empty());
    assert(repos_view(found@) =~= Seq::<RepositoryModel>::empty());
    while i < entries.len()
        invariant
            i <= entries.len(),
            repos_view(found@) == repositories(entries_view(entries@).take(i as int)),
        decreases entries.len() - i,
    {
        let ghost all = entries_view(entries@);
        let ghost before = repos_view(found@);
        assert(all.take(i + 1).drop_last() =~= all.take(i as int));
        assert(all.take(i + 1).last() == entries@[i as int]@);
        if entries[i].is_dir && is_git_repo(&entries[i]) {
            let name = match &entries[i].name {
                Some(name) => Some(name.as_str()),
                None => None,
            };
            found.push(Repository::new(entries[i].path.as_str(), name));
            assert(repos_view(found@) =~= before.push(as_repository(entries@[i as int]@)));
        }
        i += 1;
    }
    assert(entries_view(entries@).take(entries.len() as int) =~= entries_view(entries@));
    found
}

/// How the repositories of a workspace are updated.
#[derive(Debug, Clone, Copy, PartialEq, Eq, Structural)]
pub enum ExecutionMode {
    /// One at a time, in the order given, so that what is logged reads in
    /// order.
    Sequential,
    /// Side by side, on a pool of workers.
    Parallel,
}

impl ExecutionMode {
    /// How many repositories may be handed out at once: one in sequential
    /// mode; in parallel mode as many as there are, the pool of workers
    /// bounds how many of them run at a time.
    pub open spec fn limit(self) -> nat {
        match self {
            ExecutionMode::Sequential => 1,
            ExecutionMode::Parallel => usize::MAX as nat,
        }
    }

    /// How many repositories may be handed out at once.
    pub fn worker_limit(&self) -> (r: usize)
        ensures
            r == self.limit(),
            r >= 1,
    {
        match self {
            ExecutionMode::Sequential => 1,
            ExecutionMode::Parallel => usize::MAX,
        }
    }
}

/// The mode for a run: sequential when verbose, parallel otherwise.
pub fn execution_mode(verbose: bool) -> (r: ExecutionMode)
    ensures
        r == (if verbose {
            ExecutionMode::Sequential
        } else {
            ExecutionMode::Parallel
        }),
{
    if verbose {
        ExecutionMode::Sequential
    } else {
        ExecutionMode::Parallel
    }
}

/// What is known of the update of one repository.
#[derive(Debug)]
enum Slot {
    Waiting,
    Running,
    Finished(UpdateResult),
}

/// What is known of the update of one repository, as a plain value.
pub ghost enum SlotModel {
    /// Not handed out yet.
    Waiting,
    /// Handed out; no result yet.
    Running,
    /// Over, with this result.
    Finished(ResultModel),
}

impl View for Slot {
    type V = SlotModel;

    closed spec fn view(&self) -> SlotModel {
        match self {
            Slot::Waiting => SlotModel::Waiting,
            Slot::Running => SlotModel::Running,
            Slot::Finished(result) => SlotModel::Finished(result@),
        }
    }
}

/// The scheduler as a plain value.
pub ghost struct SchedulerModel {
    /// The paths of the repositories, in the order given.
    pub repos: Seq<Seq<char>>,
    /// What is known of each, at the same place.
    pub slots: Seq<SlotModel>,
    /// How many may run at once.
    pub limit: nat,
    /// How many were handed out: the first `started` ones.
    pub started: nat,
}

/// How many of `slots` are running.
pub open spec fn in_flight(slots: Seq<SlotModel>) -> nat
    decreases slots.len(),
{
    if slots.len() == 0 {
        0
    } else {
        in_flight(slots.drop_last()) + if slots.last() is Running {
            1nat
        } else {
            0nat
        }
    }
}

impl SchedulerModel {
    /// The scheduler before anything was handed out.
    pub open spec fn fresh(repos: Seq<Seq<char>>, limit: nat) -> SchedulerModel {
        SchedulerModel {
            repos,
            slots: Seq::new(repos.len(), |i: int| SlotModel::Waiting),
            limit,
            started: 0,
        }
    }

    /// What every scheduler keeps to: there is a slot for each repository;
    /// the repositories handed out are the first ones, each once; no more run
    /// at once than the limit allows; and a result stands at the place of the
    /// repository that it is the result of.
    pub open spec fn wf(self) -> bool {
        &&& self.slots.len() == self.repos.len()
        &&& self.limit >= 1
        &&& self.started <= self.slots.len()
        &&& forall|i: int| 0 <= i < self.started ==> !((#[trigger] self.slots[i]) is Waiting)
        &&& forall|i: int|
            self.started <= i < self.slots.len() ==> (#[trigger] self.slots[i]) is Waiting
        &&& in_flight(self.slots) <= self.limit
        &&& forall|i: int|
            0 <= i < self.slots.len() ==> ((#[trigger] self.slots[i]) matches SlotModel::Finished(
                result,
            ) ==> result.path == self.repos[i])
    }

    /// The index of the repository to hand out next, if one may be handed
    /// out now: the first that waits, unless as many run as the limit allows.
    pub open spec fn next_job(self) -> Option<nat> {
        if self.started < self.slots.len() && in_flight(self.slots) < self.limit {
            Some(self.started)
        } else {
            None
        }
    }

    /// The scheduler after the next job was handed out.
    pub open spec fn dispatched(self) -> SchedulerModel {
        SchedulerModel {
            slots: self.slots.update(self.started as int, SlotModel::Running),
            started: self.started + 1,
            ..self
        }
    }

    /// Whether `result` is taken as the result of the repository at `index`:
    /// that repository is running, and the result is for its path.
    pub open spec fn accepts(self, index: int, result: ResultModel) -> bool {
        &&& 0 <= index < self.slots.len()
        &&& self.slots[index] is Running
        &&& result.path == self.repos[index]
    }

    /// The scheduler after `result` was reported for the repository at
    /// `index`. A result that is not taken changes nothing.
    pub open spec fn completed(self, index: int, result: ResultModel) -> SchedulerModel {
        if self.accepts(index, result) {
            SchedulerModel { slots: self.slots.update(index, SlotModel::Finished(result)), ..self }
        } else {
            self
        }
    }

    /// Every repository has its result.
    pub open spec fn done(self) -> bool {
        forall|i: int| 0 <= i < self.slots.len() ==> (#[trigger] self.slots[i]) is Finished
    }

    /// The results, in the order of the repositories.
    pub open spec fn results(self) -> Seq<ResultModel> {
        Seq::new(self.slots.len(), |i: int| self.slots[i]->Finished_0)
    }
}

/// Changing one slot changes the number of running ones by what the slot
/// stops and starts to count.
pub proof fn lemma_in_flight_update(slots: Seq<SlotModel>, index: int, slot: SlotModel)
    requires
        0 <= index < slots.len(),
    ensures
        in_flight(slots.update(index, slot)) + (if slots[index] is Running {
            1nat
        } else {
            0nat
        }) == in_flight(slots) + (if slot is Running {
            1nat
        } else {
            0nat
        }),
    decreases slots.len(),
{
    let changed = slots.update(index, slot);
    if index == slots.len() - 1 {
        assert(changed.drop_last() =~= slots.drop_last());
    } else {
        assert(changed.drop_last() =~= slots.drop_last().update(index, slot));
        lemma_in_flight_update(slots.drop_last(), index, slot);
    }
}

/// None of `slots` runs exactly when the number of running ones is zero.
pub proof fn lemma_in_flight_zero(slots: Seq<SlotModel>)
    ensures
        in_flight(slots) == 0 <==> forall|i: int|
            0 <= i < slots.len() ==> !((#[trigger] slots[i]) is Running),
    decreases slots.len(),
{
    if slots.len() > 0 {
        lemma_in_flight_zero(slots.drop_last());
        let before = slots.drop_last();
        assert(forall|i: int| 0 <= i < before.len() ==> before[i] == slots[i]);
        if in_flight(slots) == 0 {
            assert forall|i: int| 0 <= i < slots.len() implies !((#[trigger] slots[i])
                is Running) by {
                if i < before.len() {
                    assert(before[i] == slots[i]);
                }
            }
        }
    }
}

/// Slots that all wait count no running one.
proof fn lemma_in_flight_waiting(slots: Seq<SlotModel>)
    requires
        forall|i: int| 0 <= i < slots.len() ==> (#[trigger] slots[i]) is Waiting,
    ensures
        in_flight(slots) == 0,
{
    lemma_in_flight_zero(slots);
}

/// A job: the repository to update, and the index to report its result
/// under.
#[derive(Debug, PartialEq, Eq)]
pub struct Job {
    pub index: usize,
    pub path: String,
}

/// Hands the updates of a workspace out and collects their results.
#[derive(Debug)]
pub struct WorkspaceScheduler {
    repos: Vec<String>,
    slots: Vec<Slot>,
    limit: usize,
    started: usize,
    running: usize,
}

impl View for WorkspaceScheduler {
    type V = SchedulerModel;

    closed spec fn view(&self) -> SchedulerModel {
        SchedulerModel {
            repos: texts(self.repos@),
            slots: Seq::new(self.slots@.len(), |i: int| self.slots@[i]@),
            limit: self.limit as nat,
            started: self.started as nat,
        }
    }
}

impl WorkspaceScheduler {
    /// Whether the scheduler is in a state that its own operations lead to.
    pub closed spec fn wf(&self) -> bool {
        &&& self@.wf()
        &&& self.running == in_flight(self@.slots)
    }

    /// What [`wf`](Self::wf) says of the plain value.
    pub proof fn lemma_wf(&self)
        requires
            self.wf(),
        ensures
            self@.wf(),
    {
    }

    /// A scheduler for `repos`, in the order given, in `mode`.
    pub fn new(repos: Vec<String>, mode: ExecutionMode) -> (r: WorkspaceScheduler)
        ensures
            r.wf(),
            r@ == SchedulerModel::fresh(texts(repos@), mode.limit()),
    {
        let mut slots: Vec<Slot> = Vec::new();
        let mut i: usize = 0;
        while i < repos.len()
            invariant
                i <= repos.len(),
                slots@.len() == i,
                forall|j: int| 0 <= j < i ==> (#[trigger] slots@[j])@ is Waiting,
            decreases repos.len() - i,
        {
            slots.push(Slot::Waiting);
            i += 1;
        }
        let r = WorkspaceScheduler {
            repos,
            slots,
            limit: mode.worker_limit(),
            started: 0,
            running: 0,
        };
        proof {
            assert(r@.slots =~= SchedulerModel::fresh(texts(repos@), mode.limit()).slots);
            assert(r@.repos.len() == repos@.len());
            lemma_in_flight_waiting(r@.slots);
        }
        r
    }

    /// How many repositories the workspace holds.
    pub fn len(&self) -> (r: usize)
        ensures
            r == self@.repos.len(),
    {
        self.repos.len()
    }

    /// How many repositories were handed out.
    pub fn started(&self) -> (r: usize)
        ensures
            r == self@.started,
    {
        self.started
    }

    /// How many repositories may run at once.
    pub fn limit(&self) -> (r: usize)
        ensures
            r == self@.limit,
    {
        self.limit
    }

    /// How many repositories are in the course of being updated. It is never
    /// more than the limit.
    pub fn in_flight(&self) -> (r: usize)
        requires
            self.wf(),
        ensures
            r == in_flight(self@.slots),
            r <= self@.limit,
    {
        self.running
    }

    /// Hands out the next job, if one may be handed out now: the first
    /// repository that waits, unless as many run as the limit allows.
    pub fn next_job(&mut self) -> (r: Option<Job>)
        requires
            old(self).wf(),
        ensures
            final(self).wf(),
            match old(self)@.next_job() {
                Some(index) => {
                    &&& r is Some
                    &&& r.unwrap().index == index
                    &&& r.unwrap().path@ == old(self)@.repos[index as int]
                    &&& final(self)@ == old(self)@.dispatched()
                },
                None => r is None && final(self)@ == old(self)@,
            },
    {
        if self.started < self.slots.len() && self.running < self.limit {
            let index = self.started;
            let ghost before = self@;
            self.slots.set(index, Slot::Running);
            self.started = index + 1;
            self.running = self.running + 1;
            proof {
                assert(self@.slots =~= before.slots.update(index as int, SlotModel::Running));
                lemma_in_flight_update(before.slots, index as int, SlotModel::Running);
                assert(before.slots[index as int] is Waiting);
            }
            Some(Job { index, path: self.repos[index].clone() })
        } else {
            None
        }
    }

    /// Reports `result` for the repository at `index`. It is taken, and `true`
    /// returned, if that repository is running and the result is for its
    /// path; otherwise nothing changes. The other repositories are not
    /// touched either way.
    pub fn complete(&mut self, index: usize, result: UpdateResult) -> (r: bool)
        requires
            old(self).wf(),
        ensures
            final(self).wf(),
            r == old(self)@.accepts(index as int, result@),
            final(self)@ == old(self)@.completed(index as int, result@),
    {
        if index >= self.slots.len() {
            return false;
        }
        let running = match &self.slots[index] {
            Slot::Running => true,
            _ => false,
        };
        if !running || result.path != self.repos[index] {
            return false;
        }
        let ghost before = self@;
        self.slots.set(index, Slot::Finished(result));
        proof {
            lemma_in_flight_update(before.slots, index as int, SlotModel::Finished(result@));
        }
        self.running = self.running - 1;
        proof {
            assert(self@.slots =~= before.slots.update(index as int, SlotModel::Finished(result@)));
        }
        true
    }

    /// Whether every repository has its result.
    pub fn is_done(&self) -> (r: bool)
        requires
            self.wf(),
        ensures
            r == self@.done(),
    {
        proof {
            lemma_in_flight_zero(self@.slots);
            if self.started < self.slots@.len() {
                assert(self@.slots[self.started as int] is Waiting);
            }
        }
        self.started == self.slots.len() && self.running == 0
    }

    /// The results, once every repository has its own: as many as there are
    /// repositories, each at the place of its repository and for its path.
    pub fn into_results(self) -> (r: Option<Vec<UpdateResult>>)
        requires
            self.wf(),
        ensures
            r is Some <==> self@.done(),
            r matches Some(results) ==> {
                &&& results@.len() == self@.repos.len()
                &&& forall|i: int|
                    0 <= i < results@.len() ==> (#[trigger] results@[i])@ == self@.results()[i]
                &&& forall|i: int|
                    0 <= i < results@.len() ==> (#[trigger] results@[i])@.path == self@.repos[i]
            },
    {
        let mut results: Vec<UpdateResult> = Vec::new();
        let mut i: usize = 0;
        while i < self.slots.len()
            invariant
                self.wf(),
                i <= self.slots@.len(),
                results@.len() == i,
                forall|j: int| 0 <= j < i ==> (#[trigger] self@.slots[j]) is Finished,
                forall|j: int| 0 <= j < i ==> (#[trigger] results@[j])@ == self@.results()[j],
            decreases self.slots@.len() - i,
        {
            match &self.slots[i] {
                Slot::Finished(result) => {
                    results.push(result.clone());
                },
                _ => {
                    assert(!(self@.slots[i as int] is Finished));
                    return None;
                },
            }
            i += 1;
        }
        Some(results)
    }
}

/// A pool of worker threads, as rayon has it. Nothing is known of one but
/// that work can be handed to it.
#[verifier::external_type_specification]
#[verifier::external_body]
pub struct ExThreadPool(ThreadPool);

/// `make_callbacks` can be called for every one of `repos`, and `git` in
/// every one of them, with every command that names no invalid branch.
pub open spec fn can_update<F, C, G>(repos: Seq<Repository>, make_callbacks: F, git: G) -> bool where
    F: Fn(&Repository) -> C,
    G: Fn(&str, &GitCommand) -> GitReply,
 {
    &&& forall|i: int|
        0 <= i < repos.len() ==> call_requires(make_callbacks, (&#[trigger] repos[i],))
    &&& forall|i: int, place: &str, command: &GitCommand|
        #![trigger repos[i], call_requires(git, (place, command))]
        0 <= i < repos.len() && place@ == repos[i]@.path && well_named(command@) ==> call_requires(
            git,
            (place, command),
        )
}

/// Updates one repository of a workspace, with callbacks made for it.
fn update_one<F, C, G>(repo: &Repository, make_callbacks: &F, git: &G) -> (result: UpdateResult) where
    F: Fn(&Repository) -> C + Sync,
    C: UpdateCallbacks,
    G: Fn(&str, &GitCommand) -> GitReply + Sync,

    requires
        call_requires(*make_callbacks, (repo,)),
        forall|place: &str, command: &GitCommand|
            place@ == repo@.path && well_named(command@) ==> call_requires(
                *git,
                (place, command),
            ),
    ensures
        result@.path == repo@.path,
        is_update_of(*git, repo@, result@),
{
    let callbacks = make_callbacks(repo);
    update(repo, &callbacks, git)
}

/// What a result of [`update_one`] is.
proof fn lemma_update_one<F, C, G>(
    repo: Repository,
    make_callbacks: F,
    git: G,
    result: UpdateResult,
) where
    F: Fn(&Repository) -> C + Sync,
    C: UpdateCallbacks,
    G: Fn(&str, &GitCommand) -> GitReply + Sync,

    requires
        call_ensures(update_one::<F, C, G>, (&repo, &make_callbacks, &git), result),
    ensures
        result@.path == repo@.path,
        is_update_of(git, repo@, result@),
{
}

/// rayon's `ThreadPool::install`, around a parallel `map` over `batch` that is
/// collected into a vector: the repositories of `batch` are updated on the
/// workers of `pool`, any number of them at a time. As rayon collects a
/// parallel iterator over a vector in the order of the vector, there comes
/// back one result for each repository, at the place of the repository, and
/// each is a result of [`update_one`] for it.
#[verifier::external_body]
fn update_side_by_side<F, C, G>(
    pool: &ThreadPool,
    batch: &Vec<&Repository>,
    make_callbacks: &F,
    git: &G,
) -> (results: Vec<UpdateResult>) where
    F: Fn(&Repository) -> C + Sync,
    C: UpdateCallbacks,
    G: Fn(&str, &GitCommand) -> GitReply + Sync,

    requires
        forall|k: int|
            0 <= k < batch@.len() ==> call_requires(*make_callbacks, (#[trigger] batch@[k],)),
        forall|k: int, place: &str, command: &GitCommand|
            #![trigger batch@[k], call_requires(*git, (place, command))]
            0 <= k < batch@.len() && place@ == batch@[k]@.path && well_named(command@)
                ==> call_requires(*git, (place, command)),
    ensures
        results@.len() == batch@.len(),
        forall|k: int|
            0 <= k < batch@.len() ==> call_ensures(
                update_one::<F, C, G>,
                (batch@[k], make_callbacks, git),
                #[trigger] results@[k],
            ),
{
    pool.install(|| batch.par_iter().map(|repo| update_one(repo, make_callbacks, git)).collect())
}

/// Updates `repos`, each with callbacks of its own from `make_callbacks`: one
/// at a time and in order where `config` is verbose, side by side on `pool`
/// otherwise. A failure of one update stops no other. The results come back
/// in the order of `repos`, one for each: the result at a place is for the
/// path at that place, and is a result of an update of that repository through
/// `git`.
pub fn update_workspace<F, C, G>(
    pool: &ThreadPool,
    repos: &Vec<Repository>,
    make_callbacks: &F,
    git: &G,
    config: &Config,
) -> (results: Vec<UpdateResult>) where
    F: Fn(&Repository) -> C + Sync,
    C: UpdateCallbacks,
    G: Fn(&str, &GitCommand) -> GitReply + Sync,

    requires
        can_update(repos@, *make_callbacks, *git),
    ensures
        results@.len() == repos@.len(),
        forall|i: int|
            0 <= i < repos@.len() ==> {
                &&& (#[trigger] results@[i])@.path == repos@[i]@.path
                &&& is_update_of(*git, repos@[i]@, results@[i]@)
            },
{
    let mode = execution_mode(config.is_verbose());
    let mut paths: Vec<String> = Vec::new();
    let mut n: usize = 0;
    while n < repos.len()
        invariant
            n <= repos@.len(),
            paths@.len() == n,
            forall|i: int| 0 <= i < n ==> (#[trigger] paths@[i])@ == repos@[i]@.path,
        decreases repos@.len() - n,
    {
        paths.push(repos[n].path.clone());
        n += 1;
    }
    let mut scheduler = WorkspaceScheduler::new(paths, mode);
    assert(scheduler@.slots.len() == repos@.len());
    proof {
        lemma_in_flight_zero(scheduler@.slots);
    }
    loop
        invariant
            can_update(repos@, *make_callbacks, *git),
            scheduler.wf(),
            scheduler@.slots.len() == repos@.len(),
            scheduler@.repos.len() == repos@.len(),
            forall|i: int| 0 <= i < repos@.len() ==> #[trigger] scheduler@.repos[i] == repos@[i]@.path,
            scheduler@.limit >= 1,
            in_flight(scheduler@.slots) == 0,
            forall|i: int|
                0 <= i < scheduler@.started ==> (#[trigger] scheduler@.slots[i]
                    matches SlotModel::Finished(result) && is_update_of(
                    *git,
                    repos@[i]@,
                    result,
                )),
        ensures
            scheduler.wf(),
            scheduler@.done(),
            scheduler@.slots.len() == repos@.len(),
            scheduler@.repos.len() == repos@.len(),
            forall|i: int|
                0 <= i < repos@.len() ==> (#[trigger] scheduler@.slots[i]
                    matches SlotModel::Finished(result) && is_update_of(
                    *git,
                    repos@[i]@,
                    result,
                ) && result.path == repos@[i]@.path),
        decreases repos@.len() - scheduler@.started,
    {
        let first = scheduler.started();
        let ghost settled = scheduler@;
        let mut batch: Vec<&Repository> = Vec::new();
        loop
            invariant
                scheduler.wf(),
                scheduler@.slots.len() == repos@.len(),
                scheduler@.repos == settled.repos,
                scheduler@.limit == settled.limit,
                first == settled.started,
                first <= scheduler@.started <= repos@.len(),
                batch@.len() == scheduler@.started - first,
                forall|k: int| 0 <= k < batch@.len() ==> *(#[trigger] batch@[k]) == repos@[first + k],
                in_flight(scheduler@.slots) == batch@.len(),
                forall|i: int| 0 <= i < first ==> #[trigger] scheduler@.slots[i] == settled.slots[i],
                forall|i: int|
                    first <= i < scheduler@.started ==> (#[trigger] scheduler@.slots[i]) is Running,
            ensures
                scheduler@.next_job() is None,
            decreases repos@.len() - scheduler@.started,
        {
            let ghost before = scheduler@;
            match scheduler.next_job() {
                Some(job) => {
                    proof {
                        scheduler.lemma_wf();
                        lemma_in_flight_update(
                            before.slots,
                            before.started as int,
                            SlotModel::Running,
                        );
                    }
                    batch.push(&repos[job.index]);
                },
                None => {
                    break ;
                },
            }
        }
        if batch.len() == 0 {
            proof {
                scheduler.lemma_wf();
                assert forall|i: int| 0 <= i < repos@.len() implies (#[trigger] scheduler@.slots[i]
                    matches SlotModel::Finished(result) && is_update_of(
                    *git,
                    repos@[i]@,
                    result,
                ) && result.path == repos@[i]@.path) by {
                    assert(scheduler@.slots[i] == settled.slots[i]);
                }
            }
            break ;
        }
        let mut results: Vec<UpdateResult> = if batch.len() == 1 {
            let mut one: Vec<UpdateResult> = Vec::new();
            assert(*batch@[0] == repos@[first + 0]);
            one.push(update_one(batch[0], make_callbacks, git));
            one
        } else {
            assert forall|k: int| 0 <= k < batch@.len() implies call_requires(
                *make_callbacks,
                (#[trigger] batch@[k],),
            ) by {
                assert(*batch@[k] == repos@[first + k]);
            }
            assert forall|k: int, place: &str, command: &GitCommand|
                #![trigger batch@[k], call_requires(*git, (place, command))]
                0 <= k < batch@.len() && place@ == batch@[k]@.path && well_named(
                    command@,
                ) implies call_requires(*git, (place, command)) by {
                assert(*batch@[k] == repos@[first + k]);
            }
            let many = update_side_by_side(pool, &batch, make_callbacks, git);
            proof {
                assert forall|k: int| 0 <= k < many@.len() implies (#[trigger] many@[k])@.path
                    == batch@[k]@.path && is_update_of(*git, batch@[k]@, many@[k]@) by {
                    lemma_update_one::<F, C, G>(*batch@[k], *make_callbacks, *git, many@[k]);
                }
            }
            many
        };
        let mut k: usize = results.len();
        while k > 0
            invariant
                scheduler.wf(),
                scheduler@.slots.len() == repos@.len(),
                scheduler@.repos == settled.repos,
                scheduler@.limit == settled.limit,
                first == settled.started,
                scheduler@.started == first + batch@.len(),
                first + batch@.len() <= repos@.len(),
                forall|i: int| 0 <= i < repos@.len() ==> #[trigger] settled.repos[i] == repos@[i]@.path,
                forall|j: int| 0 <= j < batch@.len() ==> *(#[trigger] batch@[j]) == repos@[first + j],
                k <= batch@.len(),
                results@.len() == k,
                forall|j: int|
                    0 <= j < k ==> (#[trigger] results@[j])@.path == batch@[j]@.path
                        && is_update_of(*git, batch@[j]@, results@[j]@),
                in_flight(scheduler@.slots) == k,
                forall|i: int| 0 <= i < first ==> #[trigger] scheduler@.slots[i] == settled.slots[i],
                forall|i: int|
                    first <= i < first + k ==> (#[trigger] scheduler@.slots[i]) is Running,
                forall|i: int|
                    first + k <= i < first + batch@.len() ==> (#[trigger] scheduler@.slots[i]
                        matches SlotModel::Finished(result) && is_update_of(
                        *git,
                        repos@[i]@,
                        result,
                    )),
            decreases k,
        {
            let ghost before = scheduler@;
            let result = results.pop().unwrap();
            k = k - 1;
            proof {
                scheduler.lemma_wf();
                assert(before.slots[first + k] is Running);
                assert(*batch@[k as int] == repos@[first + k]);
                assert(before.repos[first + k] == repos@[first + k]@.path);
                lemma_in_flight_update(
                    before.slots,
                    first + k,
                    SlotModel::Finished(result@),
                );
            }
            let accepted = scheduler.complete(first + k, result);
            assert(accepted);
        }
    }
    match scheduler.into_results() {
        Some(results) => {
            proof {
                scheduler.lemma_wf();
            }
            results
        },
        None => unreached(),
    }
}

/// Updates `repos` with clones of `callbacks`, one clone for each repository.
pub fn update_workspace_with<C, G>(
    pool: &ThreadPool,
    repos: &Vec<Repository>,
    callbacks: &C,
    git: &G,
    config: &Config,
) -> (results: Vec<UpdateResult>) where
    C: UpdateCallbacks + Clone,
    G: Fn(&str, &GitCommand) -> GitReply + Sync,

    requires
        forall|i: int, place: &str, command: &GitCommand|
            #![trigger repos@[i], call_requires(*git, (place, command))]
            0 <= i < repos@.len() && place@ == repos@[i]@.path && well_named(command@)
                ==> call_requires(*git, (place, command)),
    ensures
        results@.len() == repos@.len(),
        forall|i: int|
            0 <= i < repos@.len() ==> {
                &&& (#[trigger] results@[i])@.path == repos@[i]@.path
                &&& is_update_of(*git, repos@[i]@, results@[i]@)
            },
{
    let make_callbacks = |_repo: &Repository| -> (made: C) { callbacks.clone() };
    update_workspace(pool, repos, &make_callbacks, git, config)
}

} // verus!
