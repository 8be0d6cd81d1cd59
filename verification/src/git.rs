//! The git operations that an update is made of: what is run for each, which
//! branch names may be handed to git at all, and how each answer is read.
//!
//! Commands are run by whoever has the means to. What comes back is a
//! [`GitReply`]: the trimmed standard output of a command that succeeded, or
//! the error of one that did not.

use crate::constants::{MAIN_BRANCH, MASTER_BRANCH, NOTHING_TO_STASH, ORIGIN_REMOTE};
use crate::text::{chain, chained, chars_of, contains, mentions, quote, quoted, texts};
use vstd::prelude::*;

verus! {

/// Why a git operation failed.
#[derive(Debug, Clone, Copy, PartialEq, Eq, Structural)]
pub enum GitErrorKind {
    /// A branch or ref name was refused before anything ran.
    Validation,
    /// The git binary could not be launched.
    Spawn,
    /// The command ran longer than allowed and was killed.
    Timeout,
    /// The command ran and exited with a failure.
    Command,
}

/// A failed git operation: its kind, and a description that leads with the
/// outermost context and ends with the cause.
#[derive(Debug, PartialEq, Eq)]
pub struct GitError {
    pub kind: GitErrorKind,
    pub message: String,
}

/// A [`GitError`] as a plain value.
pub ghost struct GitErrorModel {
    pub kind: GitErrorKind,
    pub message: Seq<char>,
}

impl View for GitError {
    type V = GitErrorModel;

    open spec fn view(&self) -> GitErrorModel {
        GitErrorModel { kind: self.kind, message: self.message@ }
    }
}

impl Clone for GitError {
    fn clone(&self) -> (r: Self)
        ensures
            r@ == self@,
    {
        GitError { kind: self.kind, message: self.message.clone() }
    }
}

/// What running a git command gave: its trimmed output, or its failure.
pub type GitReply = Result<String, GitError>;

/// A reply as a plain value.
pub type ReplyModel = Result<Seq<char>, GitErrorModel>;

/// The plain value of a reply.
pub open spec fn reply_view(reply: GitReply) -> ReplyModel {
    match reply {
        Ok(output) => Ok(output@),
        Err(error) => Err(error@),
    }
}

/// The plain value of a result that carries no text on success.
pub open spec fn result_view<T>(result: Result<T, GitError>) -> Result<T, GitErrorModel> {
    match result {
        Ok(value) => Ok(value),
        Err(error) => Err(error@),
    }
}

/// `error`, described as the cause of `context`.
pub open spec fn in_context(context: Seq<char>, error: GitErrorModel) -> GitErrorModel {
    GitErrorModel { kind: error.kind, message: chained(context, error.message) }
}

impl GitError {
    /// This error as the cause of `context`: the kind stays, the description
    /// becomes `context`, a colon and a space, and the old description.
    pub fn context(self, context: &str) -> (r: GitError)
        ensures
            r@ == in_context(context@, self@),
    {
        GitError { kind: self.kind, message: chain(context, self.message.as_str()) }
    }
}

/// A character that no branch or ref name may hold: NUL, a line feed, and
/// the characters that a shell gives a meaning of its own.
pub open spec fn is_forbidden(c: char) -> bool {
    c == '\0' || c == '\n' || c == ';' || c == '|' || c == '&' || c == '$' || c == '`' || c == '('
        || c == ')' || c == '{' || c == '}'
}

/// A name that may be handed to git: not empty, not starting with a dash
/// (git would read it as an option), and free of forbidden characters.
pub open spec fn valid_branch_name(name: Seq<char>) -> bool {
    &&& name.len() > 0
    &&& name[0] != '-'
    &&& forall|i: int| 0 <= i < name.len() ==> !is_forbidden(#[trigger] name[i])
}

/// The error that refuses `name`.
pub open spec fn refused_name(name: Seq<char>) -> GitErrorModel {
    GitErrorModel {
        kind: GitErrorKind::Validation,
        message: chained("Invalid branch name"@, quoted(name)),
    }
}

/// What validation says of `name`: a valid name passes, any other is refused
/// with an error that quotes it.
pub open spec fn validated(name: Seq<char>) -> Result<(), GitErrorModel> {
    if valid_branch_name(name) {
        Ok(())
    } else {
        Err(refused_name(name))
    }
}

/// Whether `c` is a forbidden character.
fn forbidden(c: char) -> (r: bool)
    ensures
        r == is_forbidden(c),
{
    c == '\0' || c == '\n' || c == ';' || c == '|' || c == '&' || c == '$' || c == '`' || c == '('
        || c == ')' || c == '{' || c == '}'
}

/// Accepts `branch` as a name that may be handed to git, or refuses it.
pub fn validate_branch_name(branch: &str) -> (r: Result<(), GitError>)
    ensures
        result_view(r) == validated(branch@),
{
    let chars = chars_of(branch);
    let mut ok: bool = chars.len() > 0 && chars[0] != '-';
    let mut i: usize = 0;
    while ok && i < chars.len()
        invariant
            chars@ == branch@,
            i <= chars.len(),
            ok ==> chars.len() > 0 && chars@[0] != '-',
            ok ==> forall|j: int| 0 <= j < i ==> !is_forbidden(#[trigger] chars@[j]),
            !ok ==> !valid_branch_name(branch@),
        decreases chars.len() - i + (if ok { 1nat } else { 0nat }),
    {
        if forbidden(chars[i]) {
            ok = false;
        } else {
            i += 1;
        }
    }
    if ok {
        Ok(())
    } else {
        let name = quote(branch);
        Err(
            GitError {
                kind: GitErrorKind::Validation,
                message: chain("Invalid branch name", name.as_str()),
            },
        )
    }
}

/// One git invocation of those an update is made of.
#[derive(Debug, PartialEq, Eq)]
pub enum GitCommand {
    /// `rev-parse --abbrev-ref HEAD`: the name of the current branch.
    CurrentBranch,
    /// `rev-parse HEAD`: the identifier of the current commit.
    CurrentCommit,
    /// `status --porcelain`: one line per changed or untracked file.
    Status,
    /// `fetch --prune`: refresh the remote-tracking refs, dropping stale ones.
    FetchPrune,
    /// `stash`: shelve the working-tree changes.
    Stash,
    /// `checkout <branch>`.
    Checkout { branch: String },
    /// `pull --ff-only origin <branch>`.
    PullFastForward { branch: String },
    /// `stash pop`: bring the shelved changes back.
    StashPop,
}

/// A [`GitCommand`] as a plain value.
pub ghost enum CommandModel {
    CurrentBranch,
    CurrentCommit,
    Status,
    FetchPrune,
    Stash,
    Checkout { branch: Seq<char> },
    PullFastForward { branch: Seq<char> },
    StashPop,
}

impl View for GitCommand {
    type V = CommandModel;

    open spec fn view(&self) -> CommandModel {
        match self {
            GitCommand::CurrentBranch => CommandModel::CurrentBranch,
            GitCommand::CurrentCommit => CommandModel::CurrentCommit,
            GitCommand::Status => CommandModel::Status,
            GitCommand::FetchPrune => CommandModel::FetchPrune,
            GitCommand::Stash => CommandModel::Stash,
            GitCommand::Checkout { branch } => CommandModel::Checkout { branch: branch@ },
            GitCommand::PullFastForward { branch } => CommandModel::PullFastForward {
                branch: branch@,
            },
            GitCommand::StashPop => CommandModel::StashPop,
        }
    }
}

/// Whether `command` may be handed to git: where it names a branch, the name
/// is a valid one.
pub open spec fn well_named(command: CommandModel) -> bool {
    match command {
        CommandModel::Checkout { branch } => valid_branch_name(branch),
        CommandModel::PullFastForward { branch } => valid_branch_name(branch),
        _ => true,
    }
}

/// The arguments that git is run with for `command`.
pub open spec fn command_args(command: CommandModel) -> Seq<Seq<char>> {
    match command {
        CommandModel::CurrentBranch => seq!["rev-parse"@, "--abbrev-ref"@, "HEAD"@],
        CommandModel::CurrentCommit => seq!["rev-parse"@, "HEAD"@],
        CommandModel::Status => seq!["status"@, "--porcelain"@],
        CommandModel::FetchPrune => seq!["fetch"@, "--prune"@],
        CommandModel::Stash => seq!["stash"@],
        CommandModel::Checkout { branch } => seq!["checkout"@, branch],
        CommandModel::PullFastForward { branch } => seq![
            "pull"@,
            "--ff-only"@,
            ORIGIN_REMOTE@,
            branch,
        ],
        CommandModel::StashPop => seq!["stash"@, "pop"@],
    }
}

impl Clone for GitCommand {
    fn clone(&self) -> (r: Self)
        ensures
            r@ == self@,
    {
        match self {
            GitCommand::CurrentBranch => GitCommand::CurrentBranch,
            GitCommand::CurrentCommit => GitCommand::CurrentCommit,
            GitCommand::Status => GitCommand::Status,
            GitCommand::FetchPrune => GitCommand::FetchPrune,
            GitCommand::Stash => GitCommand::Stash,
            GitCommand::Checkout { branch } => GitCommand::Checkout { branch: branch.clone() },
            GitCommand::PullFastForward { branch } => GitCommand::PullFastForward {
                branch: branch.clone(),
            },
            GitCommand::StashPop => GitCommand::StashPop,
        }
    }
}

impl GitCommand {
    /// The arguments to run git with, the subcommand first.
    pub fn args(&self) -> (r: Vec<String>)
        ensures
            texts(r@) == command_args(self@),
    {
        let mut r: Vec<String> = Vec::new();
        match self {
            GitCommand::CurrentBranch => {
                r.push("rev-parse".to_string());
                r.push("--abbrev-ref".to_string());
                r.push("HEAD".to_string());
            },
            GitCommand::CurrentCommit => {
                r.push("rev-parse".to_string());
                r.push("HEAD".to_string());
            },
            GitCommand::Status => {
                r.push("status".to_string());
                r.push("--porcelain".to_string());
            },
            GitCommand::FetchPrune => {
                r.push("fetch".to_string());
                r.push("--prune".to_string());
            },
            GitCommand::Stash => {
                r.push("stash".to_string());
            },
            GitCommand::Checkout { branch } => {
                r.push("checkout".to_string());
                r.push(branch.clone());
            },
            GitCommand::PullFastForward { branch } => {
                r.push("pull".to_string());
                r.push("--ff-only".to_string());
                r.push(ORIGIN_REMOTE.to_string());
                r.push(branch.clone());
            },
            GitCommand::StashPop => {
                r.push("stash".to_string());
                r.push("pop".to_string());
            },
        }
        assert(texts(r@) =~= command_args(self@));
        r
    }
}

/// What a reply to [`GitCommand::CurrentBranch`] says: the output is the
/// branch name.
pub open spec fn current_branch_of(reply: ReplyModel) -> ReplyModel {
    match reply {
        Ok(output) => Ok(output),
        Err(error) => Err(in_context("Failed to get current branch"@, error)),
    }
}

/// What a reply to [`GitCommand::CurrentCommit`] says: the output is the
/// commit identifier.
pub open spec fn current_commit_of(reply: ReplyModel) -> ReplyModel {
    match reply {
        Ok(output) => Ok(output),
        Err(error) => Err(in_context("Failed to get current commit"@, error)),
    }
}

/// What a reply to [`GitCommand::Status`] says: the working tree is dirty
/// exactly when the output is not empty.
pub open spec fn uncommitted_changes_of(reply: ReplyModel) -> Result<bool, GitErrorModel> {
    match reply {
        Ok(output) => Ok(output.len() > 0),
        Err(error) => Err(in_context("Failed to check for uncommitted changes"@, error)),
    }
}

/// What a reply to [`GitCommand::Stash`] says: a stash was created unless
/// git reports that there was nothing to save.
pub open spec fn stash_of(reply: ReplyModel) -> Result<bool, GitErrorModel> {
    match reply {
        Ok(output) => Ok(!mentions(output, NOTHING_TO_STASH@)),
        Err(error) => Err(in_context("Failed to stash changes"@, error)),
    }
}

/// What a reply to [`GitCommand::StashPop`] says.
pub open spec fn stash_pop_of(reply: ReplyModel) -> Result<(), GitErrorModel> {
    match reply {
        Ok(_) => Ok(()),
        Err(error) => Err(in_context("Failed to pop stash"@, error)),
    }
}

/// The context of a failed checkout of `branch`.
pub open spec fn checkout_context(branch: Seq<char>) -> Seq<char> {
    "Failed to checkout branch "@ + quoted(branch)
}

/// What a reply to a [`GitCommand::Checkout`] of `branch` says.
pub open spec fn checkout_of(branch: Seq<char>, reply: ReplyModel) -> Result<(), GitErrorModel> {
    match reply {
        Ok(_) => Ok(()),
        Err(error) => Err(in_context(checkout_context(branch), error)),
    }
}

/// What a reply to [`GitCommand::FetchPrune`] says.
pub open spec fn fetch_prune_of(reply: ReplyModel) -> Result<(), GitErrorModel> {
    match reply {
        Ok(_) => Ok(()),
        Err(error) => Err(in_context("Failed to fetch from remote"@, error)),
    }
}

/// What a reply to a [`GitCommand::PullFastForward`] says.
pub open spec fn pull_of(reply: ReplyModel) -> Result<(), GitErrorModel> {
    match reply {
        Ok(_) => Ok(()),
        Err(error) => Err(in_context("Failed to pull from origin"@, error)),
    }
}

/// Reads the reply to [`GitCommand::CurrentBranch`].
pub fn get_current_branch(reply: GitReply) -> (r: GitReply)
    ensures
        reply_view(r) == current_branch_of(reply_view(reply)),
{
    match reply {
        Ok(output) => Ok(output),
        Err(error) => Err(error.context("Failed to get current branch")),
    }
}

/// Reads the reply to [`GitCommand::CurrentCommit`].
pub fn get_current_commit(reply: GitReply) -> (r: GitReply)
    ensures
        reply_view(r) == current_commit_of(reply_view(reply)),
{
    match reply {
        Ok(output) => Ok(output),
        Err(error) => Err(error.context("Failed to get current commit")),
    }
}

/// Reads the reply to [`GitCommand::Status`]: whether the working tree holds
/// uncommitted or untracked changes.
pub fn has_uncommitted_changes(reply: GitReply) -> (r: Result<bool, GitError>)
    ensures
        result_view(r) == uncommitted_changes_of(reply_view(reply)),
{
    match reply {
        Ok(output) => Ok(!output.as_str().is_empty()),
        Err(error) => Err(error.context("Failed to check for uncommitted changes")),
    }
}

/// Reads the reply to [`GitCommand::Stash`]: whether a stash was created.
pub fn stash(reply: GitReply) -> (r: Result<bool, GitError>)
    ensures
        result_view(r) == stash_of(reply_view(reply)),
{
    match reply {
        Ok(output) => Ok(!contains(output.as_str(), NOTHING_TO_STASH)),
        Err(error) => Err(error.context("Failed to stash changes")),
    }
}

/// Reads the reply to [`GitCommand::StashPop`].
pub fn stash_pop(reply: GitReply) -> (r: Result<(), GitError>)
    ensures
        result_view(r) == stash_pop_of(reply_view(reply)),
{
    match reply {
        Ok(_) => Ok(()),
        Err(error) => Err(error.context("Failed to pop stash")),
    }
}

/// Reads the reply to a [`GitCommand::Checkout`] of `branch`.
pub fn checkout(branch: &str, reply: GitReply) -> (r: Result<(), GitError>)
    ensures
        result_view(r) == checkout_of(branch@, reply_view(reply)),
{
    match reply {
        Ok(_) => Ok(()),
        Err(error) => {
            let mut context = "Failed to checkout branch ".to_string();
            let name = quote(branch);
            context.append(name.as_str());
            Err(error.context(context.as_str()))
        },
    }
}

/// Reads the reply to [`GitCommand::FetchPrune`].
pub fn fetch_prune(reply: GitReply) -> (r: Result<(), GitError>)
    ensures
        result_view(r) == fetch_prune_of(reply_view(reply)),
{
    match reply {
        Ok(_) => Ok(()),
        Err(error) => Err(error.context("Failed to fetch from remote")),
    }
}

/// Reads the reply to a [`GitCommand::PullFastForward`].
pub fn pull_fast_forward(reply: GitReply) -> (r: Result<(), GitError>)
    ensures
        result_view(r) == pull_of(reply_view(reply)),
{
    match reply {
        Ok(_) => Ok(()),
        Err(error) => Err(error.context("Failed to pull from origin")),
    }
}

/// The two names tried for the primary branch are names that git may be
/// handed.
pub proof fn lemma_primary_names_valid()
    ensures
        valid_branch_name(MASTER_BRANCH@),
        valid_branch_name(MAIN_BRANCH@),
        MASTER_BRANCH@ != MAIN_BRANCH@,
{
    reveal_strlit("master");
    reveal_strlit("main");
}

} // verus!
