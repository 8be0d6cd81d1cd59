//! Update orchestration for git working copies: the per-repository step
//! machine, the workspace scheduler, and the aggregation of their results.
//!
//! Nothing in this crate touches a repository by itself. It is handed the
//! means to run `git` in one, decides what is run next and what the answers
//! mean, and leaves the drawing of progress to the observer it reports to.
//!
//! - [`repo`]: steps, outcomes, results, and the observer of an update.
//! - [`git`]: the commands of an update, valid branch names, and how the
//!   replies are read.
//! - [`machine`]: the update of one repository as a transition function.
//! - [`update`]: the loop that drives the machine through an update.
//! - [`workspace`]: discovery, the scheduler, and the update of a workspace.
//! - [`summary`]: counts and the exit code.
//! - [`output`]: what progress displays show.
//! - [`config`], [`constants`], [`text`]: settings, fixed values, and
//!   operations on text.
//! - [`history`], [`laws`]: whole runs of the machine and of the scheduler,
//!   and what holds of every one.

pub mod config;
pub mod constants;
pub mod git;
pub mod history;
pub mod laws;
pub mod machine;
pub mod output;
pub mod repo;
pub mod summary;
pub mod text;
pub mod update;
pub mod workspace;
