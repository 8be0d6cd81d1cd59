use git_daily_rust::constants::{
    DEFAULT_GIT_TIMEOUT_SECS, DEFAULT_REPO_NAME, GIT_DIR, MAIN_BRANCH, MASTER_BRANCH,
    MAX_VISIBLE_COMPLETIONS, PROGRESS_TICK_MS, WORKER_COUNT,
};
use git_daily_rust::output::{format_step_message, section_padding, CompletionBoard, SlotLabel};
use git_daily_rust::repo::{
    NoOpCallbacks, OriginalHead, PrimaryBranch, UpdateCallbacks, UpdateFailure, UpdateOutcome,
    UpdateResult, UpdateStep, UpdateSuccess,
};
use git_daily_rust::summary::{exit_code, partition, summarize, Summary};
use git_daily_rust::workspace::{execution_mode, ExecutionMode};
use std::time::Duration;

fn success(path: &str) -> UpdateResult {
    UpdateResult {
        path: path.to_string(),
        outcome: UpdateOutcome::Success(UpdateSuccess {
            original_head: OriginalHead::Branch("feature".to_string()),
            master_branch: "master".to_string(),
            had_stash: false,
        }),
        duration: Duration::from_millis(120),
    }
}

fn failure(path: &str, step: UpdateStep) -> UpdateResult {
    UpdateResult {
        path: path.to_string(),
        outcome: UpdateOutcome::Failed(UpdateFailure { error: "boom".to_string(), step }),
        duration: Duration::from_millis(80),
    }
}

#[test]
fn exit_code_is_zero_when_nothing_failed() {
    assert_eq!(exit_code(&[]), 0);
    assert_eq!(exit_code(&[success("a")]), 0);
    assert_eq!(exit_code(&[success("a"), success("b"), success("c")]), 0);
}

#[test]
fn exit_code_is_two_when_everything_failed() {
    assert_eq!(exit_code(&[failure("a", UpdateStep::Fetching)]), 2);
    assert_eq!(
        exit_code(&[failure("a", UpdateStep::Fetching), failure("b", UpdateStep::Pulling)]),
        2
    );
}

#[test]
fn exit_code_is_one_for_a_mix() {
    assert_eq!(exit_code(&[success("a"), failure("b", UpdateStep::Fetching)]), 1);
    assert_eq!(exit_code(&[failure("b", UpdateStep::Fetching), success("a")]), 1);
    assert_eq!(
        exit_code(&[
            failure("a", UpdateStep::CheckingOut),
            failure("b", UpdateStep::Fetching),
            success("c"),
            failure("d", UpdateStep::Stashing),
        ]),
        1
    );
}

#[test]
fn exit_code_does_not_depend_on_the_order() {
    let make = |order: &[usize]| -> Vec<UpdateResult> {
        order
            .iter()
            .map(|i| if *i < 2 { success("s") } else { failure("f", UpdateStep::Pulling) })
            .collect()
    };
    let orders: [[usize; 4]; 4] = [[0, 1, 2, 3], [3, 2, 1, 0], [2, 0, 3, 1], [0, 3, 1, 2]];
    for order in orders {
        assert_eq!(exit_code(&make(&order)), 1);
        assert_eq!(summarize(&make(&order)), Summary { succeeded: 2, failed: 2 });
    }
}

#[test]
fn results_are_counted() {
    assert_eq!(summarize(&[]), Summary { succeeded: 0, failed: 0 });
    let results =
        vec![success("a"), failure("b", UpdateStep::Fetching), success("c"), success("d")];
    let summary = summarize(&results);
    assert_eq!(summary, Summary { succeeded: 3, failed: 1 });
    assert_eq!(summary.total(), 4);
    assert_eq!(summary.exit_code(), 1);
    assert_eq!(Summary { succeeded: 0, failed: 0 }.exit_code(), 0);
    assert_eq!(Summary { succeeded: 0, failed: 3 }.exit_code(), 2);
    assert_eq!(Summary { succeeded: 3, failed: 0 }.exit_code(), 0);
}

#[test]
fn results_are_parted_in_order() {
    let results = vec![
        success("a"),
        failure("b", UpdateStep::Fetching),
        success("c"),
        failure("d", UpdateStep::Pulling),
        failure("e", UpdateStep::Stashing),
    ];
    let (successes, failures) = partition(&results);
    let paths = |part: &Vec<&UpdateResult>| -> Vec<String> {
        part.iter().map(|r| r.path.clone()).collect()
    };
    assert_eq!(paths(&successes), vec!["a", "c"]);
    assert_eq!(paths(&failures), vec!["b", "d", "e"]);
    let (successes, failures) = partition(&[]);
    assert!(successes.is_empty() && failures.is_empty());
}

#[test]
fn every_step_has_its_message() {
    let expected = [
        (UpdateStep::Started, "Starting update..."),
        (UpdateStep::DetectingBranch, "Detecting current branch..."),
        (UpdateStep::CheckingChanges, "Checking for uncommitted changes..."),
        (UpdateStep::Fetching, "Fetching from origin..."),
        (UpdateStep::Stashing, "Stashing uncommitted changes..."),
        (UpdateStep::CheckingOut, "Checking out master branch..."),
        (UpdateStep::Pulling, "Pulling from origin..."),
        (UpdateStep::RestoringBranch, "Restoring original branch..."),
        (UpdateStep::PoppingStash, "Restoring stashed changes..."),
        (UpdateStep::Completed, "Completed"),
    ];
    for (step, message) in expected {
        assert_eq!(format_step_message(&step), message);
    }
}

#[test]
fn steps_are_ordered_as_they_are_taken() {
    let steps = [
        UpdateStep::Started,
        UpdateStep::DetectingBranch,
        UpdateStep::CheckingChanges,
        UpdateStep::Fetching,
        UpdateStep::Stashing,
        UpdateStep::CheckingOut,
        UpdateStep::Pulling,
        UpdateStep::RestoringBranch,
        UpdateStep::PoppingStash,
        UpdateStep::Completed,
    ];
    for (i, step) in steps.iter().enumerate() {
        assert_eq!(step.ordinal() as usize, i);
        for (j, other) in steps.iter().enumerate() {
            assert_eq!(step.precedes(other), i < j);
        }
    }
}

#[test]
fn heading_is_centred() {
    assert_eq!(section_padding("Summary".len()), 21);
    assert_eq!(section_padding(0), 25);
    assert_eq!(section_padding(49), 0);
    assert_eq!(section_padding(50), 0);
    assert_eq!(section_padding(1), 24);
}

fn entry(name: &str, success: bool) -> SlotLabel {
    SlotLabel::Entry { name: name.to_string(), success }
}

#[test]
fn empty_board_shows_nothing() {
    let board = CompletionBoard::new();
    assert_eq!(board.total(), 0);
    assert_eq!(board.failed(), 0);
    assert_eq!(
        board.slot_labels(),
        vec![SlotLabel::Blank, SlotLabel::Blank, SlotLabel::Blank, SlotLabel::Blank, SlotLabel::Blank]
    );
}

#[test]
fn board_lists_up_to_five_completions() {
    let mut board = CompletionBoard::new();
    board.mark_completed("a", true);
    board.mark_completed("b", false);
    assert_eq!(board.total(), 2);
    assert_eq!(board.failed(), 1);
    assert_eq!(
        board.slot_labels(),
        vec![entry("a", true), entry("b", false), SlotLabel::Blank, SlotLabel::Blank, SlotLabel::Blank]
    );
    board.mark_completed("c", true);
    board.mark_completed("d", true);
    board.mark_completed("e", false);
    assert_eq!(
        board.slot_labels(),
        vec![
            entry("a", true),
            entry("b", false),
            entry("c", true),
            entry("d", true),
            entry("e", false)
        ]
    );
    assert_eq!(board.failed(), 2);
}

#[test]
fn crowded_board_leads_with_an_ellipsis() {
    let mut board = CompletionBoard::new();
    for name in ["a", "b", "c", "d", "e", "f"] {
        board.mark_completed(name, name != "c");
    }
    assert_eq!(board.total(), 6);
    assert_eq!(board.failed(), 1);
    assert_eq!(
        board.slot_labels(),
        vec![
            SlotLabel::Ellipsis,
            entry("b", true),
            entry("c", false),
            entry("d", true),
            entry("e", true)
        ]
    );
    board.mark_completed("g", true);
    assert_eq!(
        board.slot_labels(),
        vec![
            SlotLabel::Ellipsis,
            entry("c", false),
            entry("d", true),
            entry("e", true),
            entry("f", true)
        ]
    );
    assert_eq!(board.slot_labels().len(), MAX_VISIBLE_COMPLETIONS);
}

#[test]
fn original_head_knows_its_reference() {
    let branch = OriginalHead::Branch("feature".to_string());
    assert!(!branch.is_detached());
    assert_eq!(branch.reference(), "feature");
    assert_eq!(branch.clone(), branch);
    let detached = OriginalHead::DetachedAt("abc123".to_string());
    assert!(detached.is_detached());
    assert_eq!(detached.reference(), "abc123");
    assert_eq!(detached.clone(), detached);
    assert_ne!(branch, detached);
}

#[test]
fn outcome_tells_success_from_failure() {
    let went = success("a");
    assert!(went.outcome.is_success());
    assert_eq!(went.outcome.error(), None);
    let fell = failure("b", UpdateStep::Pulling);
    assert!(!fell.outcome.is_success());
    assert_eq!(fell.outcome.error(), Some("boom"));
    assert_eq!(went.clone(), went);
    assert_eq!(fell.clone(), fell);
    assert_eq!(fell.outcome.clone(), fell.outcome);
}

#[test]
fn primary_branch_has_one_of_two_names() {
    assert_eq!(PrimaryBranch::Master.to_name(), "master");
    assert_eq!(PrimaryBranch::Main.to_name(), "main");
    assert_eq!(MASTER_BRANCH, "master");
    assert_eq!(MAIN_BRANCH, "main");
}

#[test]
fn mode_follows_verbosity() {
    assert_eq!(execution_mode(true), ExecutionMode::Sequential);
    assert_eq!(execution_mode(false), ExecutionMode::Parallel);
    assert_eq!(ExecutionMode::Sequential.worker_limit(), 1);
    assert_eq!(ExecutionMode::Parallel.worker_limit(), usize::MAX);
    assert_eq!(WORKER_COUNT, 60);
}

#[test]
fn constants_have_their_values() {
    assert_eq!(DEFAULT_GIT_TIMEOUT_SECS, 30);
    assert_eq!(PROGRESS_TICK_MS, 80);
    assert_eq!(MAX_VISIBLE_COMPLETIONS, 5);
    assert_eq!(GIT_DIR, ".git");
    assert_eq!(DEFAULT_REPO_NAME, "repository");
}

#[test]
fn no_op_callbacks_accept_every_hook() {
    let callbacks = NoOpCallbacks::default();
    callbacks.on_update_start("repo");
    callbacks.on_step(&UpdateStep::Started);
    callbacks.on_step_execute(&UpdateStep::Fetching);
    callbacks.on_complete(&success("a"));
    callbacks.on_completion_status(false, Some("boom"));
    callbacks.on_completion_status(true, None);
    assert_eq!(std::mem::size_of::<NoOpCallbacks>(), 0);
}
