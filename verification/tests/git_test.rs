use git_daily_rust::git::{
    checkout, fetch_prune, get_current_branch, get_current_commit, has_uncommitted_changes,
    pull_fast_forward, stash, stash_pop, validate_branch_name, GitCommand, GitError,
    GitErrorKind, GitReply,
};
use git_daily_rust::repo::{
    get_repo_name, NoOpCallbacks, Repository, UpdateCallbacks, UpdateResult,
};
use git_daily_rust::text::{chain, chars_of, contains, quote};
use std::sync::Mutex;

/// Where the simulated repository's HEAD stands.
#[derive(Debug, Clone, PartialEq, Eq)]
enum Head {
    Branch(String),
    Detached(String),
}

/// A repository that answers git commands from memory.
struct TestRepo {
    path: String,
    branches: Vec<String>,
    head: Head,
    has_commit: bool,
    tracked_change: bool,
    untracked_file: bool,
    stash_entries: usize,
    remote: Option<Vec<String>>,
    log: Vec<GitCommand>,
}

const COMMIT: &str = "3f786850e387550fdab836ed7e6dc881de23001b";

impl TestRepo {
    fn named(name: &str, branch: &str) -> TestRepo {
        TestRepo {
            path: format!("/work/{}", name),
            branches: vec![branch.to_string()],
            head: Head::Branch(branch.to_string()),
            has_commit: true,
            tracked_change: false,
            untracked_file: false,
            stash_entries: 0,
            remote: None,
            log: Vec::new(),
        }
    }

    fn new() -> TestRepo {
        TestRepo::named("repo", "master")
    }

    fn with_remote_named(name: &str, branch: Option<&str>) -> TestRepo {
        let branch = branch.unwrap_or("master");
        let mut repo = TestRepo::named(name, branch);
        repo.remote = Some(vec![branch.to_string()]);
        repo
    }

    fn with_remote(branch: Option<&str>) -> TestRepo {
        TestRepo::with_remote_named("repo", branch)
    }

    fn empty(name: &str) -> TestRepo {
        let mut repo = TestRepo::named(name, "master");
        repo.has_commit = false;
        repo.branches.clear();
        repo
    }

    fn path(&self) -> &str {
        &self.path
    }

    fn name(&self) -> String {
        let last = self.path.rsplit('/').next();
        get_repo_name(last.filter(|s| !s.is_empty())).to_string()
    }

    fn create_branch(&mut self, name: &str) {
        self.branches.push(name.to_string());
    }

    fn make_dirty(&mut self) {
        self.tracked_change = true;
    }

    fn make_untracked(&mut self) {
        self.untracked_file = true;
    }

    fn remove_remote(&mut self) {
        self.remote = None;
    }

    fn detach(&mut self) {
        self.head = Head::Detached(COMMIT.to_string());
    }

    fn has_stash(&self) -> bool {
        self.stash_entries > 0
    }

    fn file_exists(&self, name: &str) -> bool {
        name == "README.md" || (name == "untracked.txt" && self.untracked_file)
    }

    fn failure(args: &[String], stderr: &str) -> GitReply {
        Err(GitError {
            kind: GitErrorKind::Command,
            message: format!("git {} failed: {}", args.join(" "), stderr),
        })
    }

    /// What git would give for `command`, with its effect on the repository.
    fn run(&mut self, command: &GitCommand) -> GitReply {
        self.log.push(command.clone());
        let args = command.args();
        match command {
            GitCommand::CurrentBranch => {
                if !self.has_commit {
                    return TestRepo::failure(&args, "fatal: ambiguous argument 'HEAD'");
                }
                match &self.head {
                    Head::Branch(name) => Ok(name.clone()),
                    Head::Detached(_) => Ok("HEAD".to_string()),
                }
            }
            GitCommand::CurrentCommit => Ok(COMMIT.to_string()),
            GitCommand::Status => {
                let mut lines: Vec<&str> = Vec::new();
                if self.tracked_change {
                    lines.push("M README.md");
                }
                if self.untracked_file {
                    lines.push("?? untracked.txt");
                }
                Ok(lines.join("\n"))
            }
            GitCommand::FetchPrune => match &self.remote {
                Some(_) => Ok(String::new()),
                None => TestRepo::failure(
                    &args,
                    "fatal: 'origin' does not appear to be a git repository",
                ),
            },
            GitCommand::Stash => {
                if self.tracked_change {
                    self.tracked_change = false;
                    self.stash_entries += 1;
                    Ok("Saved working directory and index state WIP on master".to_string())
                } else {
                    Ok("No local changes to save".to_string())
                }
            }
            GitCommand::Checkout { branch } => {
                if self.branches.contains(branch) {
                    self.head = Head::Branch(branch.clone());
                    Ok(String::new())
                } else if self.has_commit && branch == COMMIT {
                    self.head = Head::Detached(branch.clone());
                    Ok(String::new())
                } else {
                    TestRepo::failure(
                        &args,
                        &format!("error: pathspec '{}' did not match any file(s) known to git", branch),
                    )
                }
            }
            GitCommand::PullFastForward { branch } => match &self.remote {
                Some(branches) if branches.contains(branch) => Ok("Already up to date.".to_string()),
                _ => TestRepo::failure(&args, "fatal: couldn't find remote ref"),
            },
            GitCommand::StashPop => {
                if self.stash_entries > 0 {
                    self.stash_entries -= 1;
                    self.tracked_change = true;
                    Ok("Dropped refs/stash@{0}".to_string())
                } else {
                    TestRepo::failure(&args, "No stash entries found.")
                }
            }
        }
    }

    fn current_branch(&mut self) -> String {
        get_current_branch(self.run(&GitCommand::CurrentBranch)).unwrap()
    }

    fn is_dirty(&mut self) -> bool {
        has_uncommitted_changes(self.run(&GitCommand::Status)).unwrap()
    }

    fn check_out(&mut self, branch: &str) {
        validate_branch_name(branch).unwrap();
        let reply = self.run(&GitCommand::Checkout { branch: branch.to_string() });
        checkout(branch, reply).unwrap();
    }
}

/// Updates `repo`, which answers the commands from memory.
fn update<C: UpdateCallbacks>(repo: &mut TestRepo, callbacks: &C) -> UpdateResult {
    let target = Repository { path: repo.path.clone(), name: repo.name() };
    let shared = Mutex::new(repo);
    let git = |path: &str, command: &GitCommand| {
        let mut repo = shared.lock().unwrap();
        assert_eq!(path, repo.path);
        repo.run(command)
    };
    git_daily_rust::update::update(&target, callbacks, &git)
}

#[test]
fn git_test_test_repo_creation() {
    let mut repo = TestRepo::new();
    let branch = get_current_branch(repo.run(&GitCommand::CurrentBranch)).unwrap();
    assert_eq!(branch, "master");
}

#[test]
fn git_test_test_repo_with_remote() {
    let mut repo = TestRepo::with_remote(None);
    let branch = get_current_branch(repo.run(&GitCommand::CurrentBranch)).unwrap();
    assert_eq!(branch, "master");
    fetch_prune(repo.run(&GitCommand::FetchPrune)).unwrap();
}

#[test]
fn git_test_test_create_branch() {
    let mut repo = TestRepo::new();
    repo.create_branch("feature");

    let branch = repo.current_branch();
    assert_eq!(branch, "master");

    repo.check_out("feature");
    let branch = repo.current_branch();
    assert_eq!(branch, "feature");
}

#[test]
fn git_test_test_make_dirty() {
    let mut repo = TestRepo::new();
    assert!(!repo.is_dirty());
    repo.make_dirty();
    assert!(repo.is_dirty());
}

#[test]
fn git_test_test_make_untracked() {
    let mut repo = TestRepo::new();
    assert!(!repo.file_exists("untracked.txt"));
    repo.make_untracked();
    assert!(repo.file_exists("untracked.txt"));
    assert!(repo.is_dirty());
}

#[test]
fn git_test_test_has_stash() {
    let mut repo = TestRepo::new();
    assert!(!repo.has_stash());
    repo.make_dirty();
    assert_eq!(stash(repo.run(&GitCommand::Stash)), Ok(true));
    assert!(repo.has_stash());
}

#[test]
fn update_of_an_empty_repository_fails_at_once() {
    let mut repo = TestRepo::empty("void");
    assert_eq!(repo.path(), "/work/void");
    repo.detach();
    repo.remove_remote();
    let result = update(&mut repo, &NoOpCallbacks);
    assert!(!result.outcome.is_success());
}

fn refused(name: &str) -> Result<(), GitError> {
    Err(GitError {
        kind: GitErrorKind::Validation,
        message: format!("Invalid branch name: '{}'", name),
    })
}

#[test]
fn branch_names_that_git_may_be_handed() {
    for name in [
        "master",
        "main",
        "feature",
        "feature/login",
        "fix-123",
        "a",
        "release_1.2",
        "3f786850e387550fdab836ed7e6dc881de23001b",
        "origin/master",
        "has space",
        "sláinte",
        "back\\slash",
        "mid-dash-",
        "tab\there",
    ] {
        assert_eq!(validate_branch_name(name), Ok(()), "{:?}", name);
    }
}

#[test]
fn empty_branch_name_is_refused() {
    assert_eq!(validate_branch_name(""), refused(""));
}

#[test]
fn branch_name_starting_with_a_dash_is_refused() {
    assert_eq!(validate_branch_name("-bad/branch"), refused("-bad/branch"));
    assert_eq!(validate_branch_name("--upload-pack=x"), refused("--upload-pack=x"));
    assert_eq!(validate_branch_name("-"), refused("-"));
}

#[test]
fn branch_name_with_a_forbidden_character_is_refused() {
    assert_eq!(validate_branch_name("bad;name"), refused("bad;name"));
    for c in ['\0', '\n', ';', '|', '&', '$', '`', '(', ')', '{', '}'] {
        for name in [format!("{}x", c), format!("x{}", c), format!("a{}b", c), c.to_string()] {
            assert_eq!(validate_branch_name(&name), refused(&name), "{:?}", name);
        }
    }
}

fn strings(args: &[&str]) -> Vec<String> {
    args.iter().map(|s| s.to_string()).collect()
}

#[test]
fn commands_have_their_arguments() {
    assert_eq!(GitCommand::CurrentBranch.args(), strings(&["rev-parse", "--abbrev-ref", "HEAD"]));
    assert_eq!(GitCommand::CurrentCommit.args(), strings(&["rev-parse", "HEAD"]));
    assert_eq!(GitCommand::Status.args(), strings(&["status", "--porcelain"]));
    assert_eq!(GitCommand::FetchPrune.args(), strings(&["fetch", "--prune"]));
    assert_eq!(GitCommand::Stash.args(), strings(&["stash"]));
    assert_eq!(GitCommand::StashPop.args(), strings(&["stash", "pop"]));
    assert_eq!(
        GitCommand::Checkout { branch: "feature".to_string() }.args(),
        strings(&["checkout", "feature"])
    );
    assert_eq!(
        GitCommand::PullFastForward { branch: "main".to_string() }.args(),
        strings(&["pull", "--ff-only", "origin", "main"])
    );
}

#[test]
fn cloned_command_is_the_same_command() {
    let command = GitCommand::Checkout { branch: "feature".to_string() };
    assert_eq!(command.clone(), command);
    assert_eq!(GitCommand::Stash.clone(), GitCommand::Stash);
}

fn broke(kind: GitErrorKind, message: &str) -> GitReply {
    Err(GitError { kind, message: message.to_string() })
}

fn said(output: &str) -> GitReply {
    Ok(output.to_string())
}

#[test]
fn successful_replies_are_read() {
    assert_eq!(get_current_branch(said("feature")), Ok("feature".to_string()));
    assert_eq!(get_current_branch(said("HEAD")), Ok("HEAD".to_string()));
    assert_eq!(get_current_commit(said("abc123")), Ok("abc123".to_string()));
    assert_eq!(has_uncommitted_changes(said("")), Ok(false));
    assert_eq!(has_uncommitted_changes(said("M README.md")), Ok(true));
    assert_eq!(has_uncommitted_changes(said("?? untracked.txt")), Ok(true));
    assert_eq!(stash(said("Saved working directory and index state WIP on master")), Ok(true));
    assert_eq!(stash(said("No local changes to save")), Ok(false));
    assert_eq!(stash(said("warning: x\nNo local changes to save\n")), Ok(false));
    assert_eq!(stash(said("")), Ok(true));
    assert_eq!(stash(said("No local changes to sav")), Ok(true));
    assert_eq!(stash_pop(said("Dropped refs/stash@{0}")), Ok(()));
    assert_eq!(checkout("feature", said("Switched to branch 'feature'")), Ok(()));
    assert_eq!(fetch_prune(said("")), Ok(()));
    assert_eq!(pull_fast_forward(said("Already up to date.")), Ok(()));
}

#[test]
fn failed_replies_keep_their_kind_and_gain_a_context() {
    let error = |context: &str| GitError {
        kind: GitErrorKind::Timeout,
        message: format!("{}: git timed out after 30s", context),
    };
    let reply = || broke(GitErrorKind::Timeout, "git timed out after 30s");
    assert_eq!(get_current_branch(reply()), Err(error("Failed to get current branch")));
    assert_eq!(get_current_commit(reply()), Err(error("Failed to get current commit")));
    assert_eq!(
        has_uncommitted_changes(reply()),
        Err(error("Failed to check for uncommitted changes"))
    );
    assert_eq!(stash(reply()), Err(error("Failed to stash changes")));
    assert_eq!(stash_pop(reply()), Err(error("Failed to pop stash")));
    assert_eq!(checkout("feature", reply()), Err(error("Failed to checkout branch 'feature'")));
    assert_eq!(fetch_prune(reply()), Err(error("Failed to fetch from remote")));
    assert_eq!(pull_fast_forward(reply()), Err(error("Failed to pull from origin")));
}

#[test]
fn every_kind_of_error_passes_through() {
    for kind in [
        GitErrorKind::Validation,
        GitErrorKind::Spawn,
        GitErrorKind::Timeout,
        GitErrorKind::Command,
    ] {
        let read = fetch_prune(broke(kind, "cause")).unwrap_err();
        assert_eq!(read.kind, kind);
        assert_eq!(read.message, "Failed to fetch from remote: cause");
        assert_eq!(read.clone(), read);
    }
    let nested = GitError { kind: GitErrorKind::Spawn, message: "no git".to_string() }
        .context("inner")
        .context("outer");
    assert_eq!(nested.message, "outer: inner: no git");
    assert_eq!(nested.kind, GitErrorKind::Spawn);
}

#[test]
fn texts_are_searched_and_joined() {
    assert!(contains("No local changes to save", "No local changes to save"));
    assert!(contains("xNo local changes to savex", "No local changes to save"));
    assert!(contains("abc", ""));
    assert!(contains("", ""));
    assert!(!contains("", "a"));
    assert!(!contains("ab", "abc"));
    assert!(contains("aab", "ab"));
    assert!(contains("abab", "bab"));
    assert!(!contains("abab", "bb"));
    assert!(contains("grüße", "üß"));
    assert!(!contains("grüße", "us"));
    for (hay, needle) in [("hello world", "o w"), ("hello", "lo"), ("hello", "ol"), ("aaa", "aaaa")] {
        assert_eq!(contains(hay, needle), hay.contains(needle));
    }
    assert_eq!(chain("context", "cause"), "context: cause");
    assert_eq!(chain("", ""), ": ");
    assert_eq!(quote("main"), "'main'");
    assert_eq!(quote(""), "''");
    assert_eq!(chars_of("añb"), vec!['a', 'ñ', 'b']);
    assert_eq!(chars_of(""), Vec::<char>::new());
}

#[test]
fn repository_name_falls_back_to_a_fixed_one() {
    assert_eq!(get_repo_name(Some("repo-a")), "repo-a");
    assert_eq!(get_repo_name(Some("")), "");
    assert_eq!(get_repo_name(None), "repository");
    assert_eq!(
        Repository::new("/work/repo-a", Some("repo-a")),
        Repository { path: "/work/repo-a".to_string(), name: "repo-a".to_string() }
    );
    let nameless = Repository::new("/", None);
    assert_eq!(nameless.name, "repository");
    assert_eq!(nameless.clone(), nameless);
}
