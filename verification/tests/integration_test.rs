use git_daily_rust::git::{
    checkout, fetch_prune, get_current_branch, has_uncommitted_changes, stash,
    validate_branch_name, GitCommand, GitError, GitErrorKind, GitReply,
};
use git_daily_rust::config::{Config, Verbosity};
use git_daily_rust::repo::{
    get_repo_name, NoOpCallbacks, OriginalHead, Repository, UpdateCallbacks, UpdateOutcome,
    UpdateResult, UpdateStep,
};
use git_daily_rust::workspace::{find_git_repos, DirectoryEntry};
use std::collections::HashSet;
use std::sync::atomic::{AtomicUsize, Ordering};
use std::sync::{Arc, Mutex};

/// Where the simulated repository's HEAD stands.
#[derive(Debug, Clone, PartialEq, Eq)]
enum Head {
    Branch(String),
    Detached(String),
}

/// A repository that answers git commands from memory.
struct TestRepo {
    path: String,
    branches: Vec<String>,
    head: Head,
    has_commit: bool,
    tracked_change: bool,
    untracked_file: bool,
    stash_entries: usize,
    remote: Option<Vec<String>>,
    log: Vec<GitCommand>,
}

const COMMIT: &str = "3f786850e387550fdab836ed7e6dc881de23001b";

impl TestRepo {
    fn named(name: &str, branch: &str) -> TestRepo {
        TestRepo {
            path: format!("/work/{}", name),
            branches: vec![branch.to_string()],
            head: Head::Branch(branch.to_string()),
            has_commit: true,
            tracked_change: false,
            untracked_file: false,
            stash_entries: 0,
            remote: None,
            log: Vec::new(),
        }
    }

    fn new() -> TestRepo {
        TestRepo::named("repo", "master")
    }

    fn with_remote_named(name: &str, branch: Option<&str>) -> TestRepo {
        let branch = branch.unwrap_or("master");
        let mut repo = TestRepo::named(name, branch);
        repo.remote = Some(vec![branch.to_string()]);
        repo
    }

    fn with_remote(branch: Option<&str>) -> TestRepo {
        TestRepo::with_remote_named("repo", branch)
    }

    fn empty(name: &str) -> TestRepo {
        let mut repo = TestRepo::named(name, "master");
        repo.has_commit = false;
        repo.branches.clear();
        repo
    }

    fn path(&self) -> &str {
        &self.path
    }

    fn name(&self) -> String {
        let last = self.path.rsplit('/').next();
        get_repo_name(last.filter(|s| !s.is_empty())).to_string()
    }

    fn create_branch(&mut self, name: &str) {
        self.branches.push(name.to_string());
    }

    fn make_dirty(&mut self) {
        self.tracked_change = true;
    }

    fn make_untracked(&mut self) {
        self.untracked_file = true;
    }

    fn remove_remote(&mut self) {
        self.remote = None;
    }

    fn detach(&mut self) {
        self.head = Head::Detached(COMMIT.to_string());
    }

    fn has_stash(&self) -> bool {
        self.stash_entries > 0
    }

    fn file_exists(&self, name: &str) -> bool {
        name == "README.md" || (name == "untracked.txt" && self.untracked_file)
    }

    fn failure(args: &[String], stderr: &str) -> GitReply {
        Err(GitError {
            kind: GitErrorKind::Command,
            message: format!("git {} failed: {}", args.join(" "), stderr),
        })
    }

    /// What git would give for `command`, with its effect on the repository.
    fn run(&mut self, command: &GitCommand) -> GitReply {
        self.log.push(command.clone());
        let args = command.args();
        match command {
            GitCommand::CurrentBranch => {
                if !self.has_commit {
                    return TestRepo::failure(&args, "fatal: ambiguous argument 'HEAD'");
                }
                match &self.head {
                    Head::Branch(name) => Ok(name.clone()),
                    Head::Detached(_) => Ok("HEAD".to_string()),
                }
            }
            GitCommand::CurrentCommit => Ok(COMMIT.to_string()),
            GitCommand::Status => {
                let mut lines: Vec<&str> = Vec::new();
                if self.tracked_change {
                    lines.push("M README.md");
                }
                if self.untracked_file {
                    lines.push("?? untracked.txt");
                }
                Ok(lines.join("\n"))
            }
            GitCommand::FetchPrune => match &self.remote {
                Some(_) => Ok(String::new()),
                None => TestRepo::failure(
                    &args,
                    "fatal: 'origin' does not appear to be a git repository",
                ),
            },
            GitCommand::Stash => {
                if self.tracked_change {
                    self.tracked_change = false;
                    self.stash_entries += 1;
                    Ok("Saved working directory and index state WIP on master".to_string())
                } else {
                    Ok("No local changes to save".to_string())
                }
            }
            GitCommand::Checkout { branch } => {
                if self.branches.contains(branch) {
                    self.head = Head::Branch(branch.clone());
                    Ok(String::new())
                } else if self.has_commit && branch == COMMIT {
                    self.head = Head::Detached(branch.clone());
                    Ok(String::new())
                } else {
                    TestRepo::failure(
                        &args,
                        &format!("error: pathspec '{}' did not match any file(s) known to git", branch),
                    )
                }
            }
            GitCommand::PullFastForward { branch } => match &self.remote {
                Some(branches) if branches.contains(branch) => Ok("Already up to date.".to_string()),
                _ => TestRepo::failure(&args, "fatal: couldn't find remote ref"),
            },
            GitCommand::StashPop => {
                if self.stash_entries > 0 {
                    self.stash_entries -= 1;
                    self.tracked_change = true;
                    Ok("Dropped refs/stash@{0}".to_string())
                } else {
                    TestRepo::failure(&args, "No stash entries found.")
                }
            }
        }
    }

    fn current_branch(&mut self) -> String {
        get_current_branch(self.run(&GitCommand::CurrentBranch)).unwrap()
    }

    fn is_dirty(&mut self) -> bool {
        has_uncommitted_changes(self.run(&GitCommand::Status)).unwrap()
    }

    fn check_out(&mut self, branch: &str) {
        validate_branch_name(branch).unwrap();
        let reply = self.run(&GitCommand::Checkout { branch: branch.to_string() });
        checkout(branch, reply).unwrap();
    }
}

/// Updates `repo`, which answers the commands from memory.
fn update<C: UpdateCallbacks>(repo: &mut TestRepo, callbacks: &C) -> UpdateResult {
    let target = Repository { path: repo.path.clone(), name: repo.name() };
    let shared = Mutex::new(repo);
    let git = |path: &str, command: &GitCommand| {
        let mut repo = shared.lock().unwrap();
        assert_eq!(path, repo.path);
        repo.run(command)
    };
    git_daily_rust::update::update(&target, callbacks, &git)
}

/// Counts the calls of the two required hooks.
#[derive(Clone)]
struct CountingCallbacks {
    steps: Arc<AtomicUsize>,
    completions: Arc<AtomicUsize>,
}

impl CountingCallbacks {
    fn new() -> (CountingCallbacks, Arc<AtomicUsize>, Arc<AtomicUsize>) {
        let steps = Arc::new(AtomicUsize::new(0));
        let completions = Arc::new(AtomicUsize::new(0));
        (
            CountingCallbacks { steps: Arc::clone(&steps), completions: Arc::clone(&completions) },
            steps,
            completions,
        )
    }
}

impl UpdateCallbacks for CountingCallbacks {
    fn on_step(&self, _step: &UpdateStep) {
        self.steps.fetch_add(1, Ordering::SeqCst);
    }

    fn on_complete(&self, _result: &UpdateResult) {
        self.completions.fetch_add(1, Ordering::SeqCst);
    }
}

/// A directory whose entries are simulated repositories and plain
/// directories.
struct Workspace {
    repos: Vec<TestRepo>,
    others: Vec<DirectoryEntry>,
}

impl Workspace {
    fn new() -> Workspace {
        Workspace { repos: Vec::new(), others: Vec::new() }
    }

    fn with_repos(repos: &[(&str, &str)]) -> Workspace {
        let mut workspace = Workspace::new();
        for (name, branch) in repos {
            workspace.repos.push(TestRepo::with_remote_named(name, Some(branch)));
        }
        workspace
    }

    fn add_directory(&mut self, name: &str, has_git_dir: bool) {
        self.others.push(DirectoryEntry {
            path: format!("/work/{}", name),
            name: Some(name.to_string()),
            is_dir: true,
            has_git_dir,
        });
    }

    fn add_file(&mut self, name: &str) {
        self.others.push(DirectoryEntry {
            path: format!("/work/{}", name),
            name: Some(name.to_string()),
            is_dir: false,
            has_git_dir: false,
        });
    }

    fn entries(&self) -> Vec<DirectoryEntry> {
        let mut entries: Vec<DirectoryEntry> = Vec::new();
        for entry in &self.others {
            entries.push(DirectoryEntry {
                path: entry.path.clone(),
                name: entry.name.clone(),
                is_dir: entry.is_dir,
                has_git_dir: entry.has_git_dir,
            });
        }
        for repo in &self.repos {
            entries.push(DirectoryEntry {
                path: repo.path.clone(),
                name: Some(repo.name()),
                is_dir: true,
                has_git_dir: true,
            });
        }
        entries
    }

    fn repo(&mut self, name: &str) -> &mut TestRepo {
        let path = format!("/work/{}", name);
        self.repos.iter_mut().find(|repo| repo.path == path).unwrap()
    }

    fn repo_at(&mut self, path: &str) -> &mut TestRepo {
        self.repos.iter_mut().find(|repo| repo.path == path).unwrap()
    }
}

fn config_for(verbose: bool) -> Config {
    Config { verbosity: if verbose { Verbosity::Verbose } else { Verbosity::Normal } }
}

/// Updates `repos`, which are repositories of `workspace`, on a pool of four
/// workers.
fn update_workspace<F, C>(
    workspace: &mut Workspace,
    repos: &[Repository],
    make_callbacks: F,
    verbose: bool,
) -> Vec<UpdateResult>
where
    F: Fn(&Repository) -> C + Sync,
    C: UpdateCallbacks,
{
    let pool = rayon::ThreadPoolBuilder::new().num_threads(4).build().unwrap();
    let shared = Mutex::new(workspace);
    let git = |path: &str, command: &GitCommand| shared.lock().unwrap().repo_at(path).run(command);
    git_daily_rust::workspace::update_workspace(
        &pool,
        &repos.to_vec(),
        &make_callbacks,
        &git,
        &config_for(verbose),
    )
}

fn update_workspace_with<C>(
    workspace: &mut Workspace,
    repos: &[Repository],
    callbacks: C,
) -> Vec<UpdateResult>
where
    C: UpdateCallbacks + Clone,
{
    let pool = rayon::ThreadPoolBuilder::new().num_threads(4).build().unwrap();
    let shared = Mutex::new(workspace);
    let git = |path: &str, command: &GitCommand| shared.lock().unwrap().repo_at(path).run(command);
    git_daily_rust::workspace::update_workspace_with(
        &pool,
        &repos.to_vec(),
        &callbacks,
        &git,
        &config_for(false),
    )
}

fn last_component(path: &str) -> &str {
    path.rsplit('/').next().unwrap()
}

#[test]
fn integration_test_test_repo_creation() {
    let mut repo = TestRepo::new();
    let branch = get_current_branch(repo.run(&GitCommand::CurrentBranch)).unwrap();
    assert_eq!(branch, "master");
}

#[test]
fn integration_test_test_repo_with_remote() {
    let mut repo = TestRepo::with_remote(None);
    let branch = get_current_branch(repo.run(&GitCommand::CurrentBranch)).unwrap();
    assert_eq!(branch, "master");
    fetch_prune(repo.run(&GitCommand::FetchPrune)).unwrap();
}

#[test]
fn integration_test_test_create_branch() {
    let mut repo = TestRepo::new();
    repo.create_branch("feature");

    let branch = repo.current_branch();
    assert_eq!(branch, "master");

    repo.check_out("feature");
    let branch = repo.current_branch();
    assert_eq!(branch, "feature");
}

#[test]
fn integration_test_test_make_dirty() {
    let mut repo = TestRepo::new();
    assert!(!has_uncommitted_changes(repo.run(&GitCommand::Status)).unwrap());
    repo.make_dirty();
    assert!(has_uncommitted_changes(repo.run(&GitCommand::Status)).unwrap());
}

#[test]
fn integration_test_test_make_untracked() {
    let mut repo = TestRepo::new();
    assert!(!repo.file_exists("untracked.txt"));
    repo.make_untracked();
    assert!(repo.file_exists("untracked.txt"));
    assert!(has_uncommitted_changes(repo.run(&GitCommand::Status)).unwrap());
}

#[test]
fn integration_test_test_has_stash() {
    let mut repo = TestRepo::new();
    assert!(!repo.has_stash());
    repo.make_dirty();
    stash(repo.run(&GitCommand::Stash)).unwrap();
    assert!(repo.has_stash());
}

#[test]
fn integration_test_test_update_returns_to_original_branch() {
    let mut repo = TestRepo::with_remote(None);
    repo.create_branch("feature");
    repo.check_out("feature");

    let result = update(&mut repo, &NoOpCallbacks);

    assert!(matches!(result.outcome, UpdateOutcome::Success(_)));
    let branch = repo.current_branch();
    assert_eq!(branch, "feature");
}

#[test]
fn integration_test_test_update_stashes_and_restores_uncommitted_changes() {
    let mut repo = TestRepo::with_remote(None);
    repo.make_dirty();
    assert!(repo.is_dirty());

    let result = update(&mut repo, &NoOpCallbacks);

    assert!(matches!(result.outcome, UpdateOutcome::Success(_)));
    assert!(repo.is_dirty());
    assert!(!repo.has_stash());
}

#[test]
fn integration_test_test_update_untracked_only_no_pop() {
    let mut repo = TestRepo::with_remote(None);
    repo.make_untracked();
    assert!(!repo.has_stash());
    assert!(repo.is_dirty());

    let result = update(&mut repo, &NoOpCallbacks);

    assert!(matches!(result.outcome, UpdateOutcome::Success(_)));
    assert!(!repo.has_stash());
    assert!(repo.is_dirty());
}

#[test]
fn integration_test_test_update_handles_repo_already_on_main() {
    let mut repo = TestRepo::with_remote(Some("main"));
    let branch = repo.current_branch();
    assert_eq!(branch, "main");

    let result = update(&mut repo, &NoOpCallbacks);

    assert!(matches!(result.outcome, UpdateOutcome::Success(_)));
    let branch = repo.current_branch();
    assert_eq!(branch, "main");
}

#[test]
fn integration_test_test_update_falls_back_to_main_when_no_master_branch() {
    let mut repo = TestRepo::with_remote(Some("main"));
    repo.create_branch("feature");
    repo.check_out("feature");

    let result = update(&mut repo, &NoOpCallbacks);

    match result.outcome {
        UpdateOutcome::Success(success) => {
            assert_eq!(success.master_branch, "main");
            assert_eq!(success.original_head.reference(), "feature");
        }
        UpdateOutcome::Failed(failure) => panic!("update failed: {}", failure.error),
    }

    let branch = repo.current_branch();
    assert_eq!(branch, "feature");
}

#[test]
fn integration_test_test_update_reports_failure_when_fetch_fails_without_remote() {
    let mut repo = TestRepo::with_remote(None);
    repo.remove_remote();

    let result = update(&mut repo, &NoOpCallbacks);

    match result.outcome {
        UpdateOutcome::Failed(failure) => {
            assert_eq!(failure.step, UpdateStep::Fetching);
            assert!(failure.error.contains("fetch"));
        }
        UpdateOutcome::Success(_) => panic!("expected update to fail without a remote"),
    }
}

#[test]
fn integration_test_test_update_workspace_updates_multiple_repos() {
    let mut workspace = Workspace::with_repos(&[("repo-a", "master"), ("repo-b", "master")]);

    let repos = find_git_repos(&workspace.entries());
    assert_eq!(repos.len(), 2);

    let results = update_workspace(&mut workspace, &repos, |_| NoOpCallbacks, false);

    assert_eq!(results.len(), 2);
    assert!(results
        .iter()
        .all(|result| matches!(result.outcome, UpdateOutcome::Success(_))));
}

#[test]
fn integration_test_test_workspace_mixed_success_and_failure() {
    let mut workspace = Workspace::with_repos(&[("repo-a", "master"), ("repo-b", "master")]);
    workspace.add_directory("repo-a-remote", false);
    workspace.repo("repo-b").remove_remote();

    let repos = find_git_repos(&workspace.entries());
    assert_eq!(repos.len(), 2);

    let results = update_workspace(&mut workspace, &repos, |_| NoOpCallbacks, false);

    assert_eq!(results.len(), 2);

    let (successes, failures): (Vec<_>, Vec<_>) = results
        .iter()
        .partition(|r| matches!(r.outcome, UpdateOutcome::Success(_)));

    assert_eq!(successes.len(), 1);
    assert_eq!(failures.len(), 1);

    let failure = failures.first().unwrap();
    match &failure.outcome {
        UpdateOutcome::Failed(f) => {
            assert_eq!(f.step, UpdateStep::Fetching);
        }
        _ => panic!("Expected failure"),
    }
}

#[test]
fn integration_test_test_workspace_with_dirty_repos() {
    let mut workspace = Workspace::with_repos(&[("repo-clean", "master"), ("repo-dirty", "master")]);
    workspace.repo("repo-dirty").make_dirty();
    assert!(workspace.repo("repo-dirty").is_dirty());

    let repos = find_git_repos(&workspace.entries());
    let results = update_workspace(&mut workspace, &repos, |_| NoOpCallbacks, false);

    assert!(results
        .iter()
        .all(|r| matches!(r.outcome, UpdateOutcome::Success(_))));

    assert!(workspace.repo("repo-dirty").is_dirty());

    let dirty_result = results
        .iter()
        .find(|r| r.path.ends_with("repo-dirty"))
        .unwrap();
    match &dirty_result.outcome {
        UpdateOutcome::Success(s) => assert!(s.had_stash),
        _ => panic!("Expected success"),
    }
}

#[test]
fn integration_test_test_workspace_callbacks_called_for_each_repo() {
    let mut workspace = Workspace::with_repos(&[
        ("repo-a", "master"),
        ("repo-b", "master"),
        ("repo-c", "master"),
    ]);

    let repos = find_git_repos(&workspace.entries());
    assert_eq!(repos.len(), 3);

    let (callbacks, step_count, complete_count) = CountingCallbacks::new();
    let results = update_workspace_with(&mut workspace, &repos, callbacks);

    assert_eq!(results.len(), 3);
    assert_eq!(complete_count.load(Ordering::SeqCst), 3);

    let total_steps = step_count.load(Ordering::SeqCst);
    assert!(
        total_steps >= 21,
        "Expected at least 21 step callbacks, got {}",
        total_steps
    );
    assert_eq!(total_steps, 24);
}

#[test]
fn integration_test_test_workspace_repos_on_different_branches() {
    let mut workspace =
        Workspace::with_repos(&[("repo-on-master", "master"), ("repo-on-main", "main")]);

    workspace.repo("repo-on-master").create_branch("feature-x");
    workspace.repo("repo-on-master").check_out("feature-x");

    workspace.repo("repo-on-main").create_branch("develop");
    workspace.repo("repo-on-main").check_out("develop");

    let repos = find_git_repos(&workspace.entries());
    let results = update_workspace(&mut workspace, &repos, |_| NoOpCallbacks, false);

    assert_eq!(results.len(), 2);
    assert!(results
        .iter()
        .all(|r| matches!(r.outcome, UpdateOutcome::Success(_))));

    assert_eq!(workspace.repo("repo-on-master").current_branch(), "feature-x");
    assert_eq!(workspace.repo("repo-on-main").current_branch(), "develop");

    for result in &results {
        match &result.outcome {
            UpdateOutcome::Success(s) => {
                if result.path.ends_with("repo-on-master") {
                    assert_eq!(s.original_head, OriginalHead::Branch("feature-x".to_string()));
                    assert_eq!(s.master_branch, "master");
                } else if result.path.ends_with("repo-on-main") {
                    assert_eq!(s.original_head, OriginalHead::Branch("develop".to_string()));
                    assert_eq!(s.master_branch, "main");
                }
            }
            _ => panic!("Expected success"),
        }
    }
}

#[test]
fn integration_test_test_workspace_empty_directory() {
    let mut workspace = Workspace::new();
    let repos = find_git_repos(&workspace.entries());
    assert!(repos.is_empty());

    let results = update_workspace(&mut workspace, &repos, |_| NoOpCallbacks, false);
    assert!(results.is_empty());
}

#[test]
fn integration_test_test_workspace_nested_repos_not_discovered() {
    // The nested repository lies below an entry of the workspace directory,
    // and so is no entry of it.
    let mut workspace = Workspace::with_repos(&[("outer-repo", "master")]);
    workspace.add_file("outer-repo.txt");

    let repos = find_git_repos(&workspace.entries());

    assert_eq!(repos.len(), 1);
    assert!(repos[0].path.ends_with("outer-repo"));
}

#[test]
fn integration_test_test_workspace_order_independence() {
    let mut workspace =
        Workspace::with_repos(&[("alpha", "master"), ("beta", "master"), ("gamma", "master")]);

    let repos = find_git_repos(&workspace.entries());
    let expected_names: HashSet<&str> = ["alpha", "beta", "gamma"].into_iter().collect();

    for _ in 0..3 {
        let results = update_workspace(&mut workspace, &repos, |_| NoOpCallbacks, false);
        assert_eq!(results.len(), 3);

        let result_names: HashSet<&str> =
            results.iter().map(|r| last_component(&r.path)).collect();

        assert_eq!(result_names, expected_names);
    }
}

#[test]
fn integration_test_test_workspace_with_untracked_files_only() {
    let mut workspace = Workspace::with_repos(&[("repo-untracked", "master")]);
    workspace.repo("repo-untracked").make_untracked();
    assert!(workspace.repo("repo-untracked").is_dirty());

    let repos = find_git_repos(&workspace.entries());
    let results = update_workspace(&mut workspace, &repos, |_| NoOpCallbacks, false);

    assert_eq!(results.len(), 1);
    match &results[0].outcome {
        UpdateOutcome::Success(s) => {
            assert!(!s.had_stash);
        }
        UpdateOutcome::Failed(f) => panic!("Expected success, got failure: {}", f.error),
    }

    assert!(workspace.repo("repo-untracked").file_exists("untracked.txt"));
}
