//! Values shared across the crate.

use vstd::prelude::*;

verus! {

/// Timeout, in seconds, of one git command when none is configured.
pub const DEFAULT_GIT_TIMEOUT_SECS: u64 = 30;

/// Number of workers that update repositories side by side. It is well above
/// a usual core count, since a worker mostly waits for the network or the disk.
pub const WORKER_COUNT: usize = 60;

/// Interval, in milliseconds, at which progress displays animate.
pub const PROGRESS_TICK_MS: u64 = 80;

/// How many finished repositories the workspace display lists at once.
pub const MAX_VISIBLE_COMPLETIONS: usize = 5;

/// Width, in characters, of a section heading.
pub const SECTION_WIDTH: usize = 50;

/// First name tried for the primary branch.
pub const MASTER_BRANCH: &'static str = "master";

/// Name tried for the primary branch when the first cannot be checked out.
pub const MAIN_BRANCH: &'static str = "main";

/// Remote that the primary branch is pulled from.
pub const ORIGIN_REMOTE: &'static str = "origin";

/// What git prints for the current branch when HEAD is detached.
pub const DETACHED_HEAD: &'static str = "HEAD";

/// What `git stash` prints when the working tree gave it nothing to shelve.
pub const NOTHING_TO_STASH: &'static str = "No local changes to save";

/// Directory whose presence marks a repository.
pub const GIT_DIR: &'static str = ".git";

/// Name shown for a repository whose path has no usable last component.
pub const DEFAULT_REPO_NAME: &'static str = "repository";

} // verus!
