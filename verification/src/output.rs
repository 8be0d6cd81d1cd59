//! What the progress displays show, as values: the message of a step, the
//! board of the repositories that finished last, the place of a heading.
//! Drawing them is left to whoever owns the terminal.

use crate::constants::{MAX_VISIBLE_COMPLETIONS, SECTION_WIDTH};
use crate::repo::UpdateStep;
use std::collections::VecDeque;
use vstd::prelude::*;

verus! {

/// The message shown while `step` is under way.
pub open spec fn step_message(step: UpdateStep) -> Seq<char> {
    match step {
        UpdateStep::Started => "Starting update..."@,
        UpdateStep::DetectingBranch => "Detecting current branch..."@,
        UpdateStep::CheckingChanges => "Checking for uncommitted changes..."@,
        UpdateStep::Fetching => "Fetching from origin..."@,
        UpdateStep::Stashing => "Stashing uncommitted changes..."@,
        UpdateStep::CheckingOut => "Checking out master branch..."@,
        UpdateStep::Pulling => "Pulling from origin..."@,
        UpdateStep::RestoringBranch => "Restoring original branch..."@,
        UpdateStep::PoppingStash => "Restoring stashed changes..."@,
        UpdateStep::Completed => "Completed"@,
    }
}

/// The message shown while `step` is under way.
pub fn format_step_message(step: &UpdateStep) -> (r: &'static str)
    ensures
        r@ == step_message(*step),
{
    match step {
        UpdateStep::Started => "Starting update...",
        UpdateStep::DetectingBranch => "Detecting current branch...",
        UpdateStep::CheckingChanges => "Checking for uncommitted changes...",
        UpdateStep::Fetching => "Fetching from origin...",
        UpdateStep::Stashing => "Stashing uncommitted changes...",
        UpdateStep::CheckingOut => "Checking out master branch...",
        UpdateStep::Pulling => "Pulling from origin...",
        UpdateStep::RestoringBranch => "Restoring original branch...",
        UpdateStep::PoppingStash => "Restoring stashed changes...",
        UpdateStep::Completed => "Completed",
    }
}

/// How many spaces stand before a heading of `title_len` characters, so that
/// it is centred in a section.
pub fn section_padding(title_len: usize) -> (r: usize)
    requires
        title_len <= SECTION_WIDTH,
    ensures
        r == (SECTION_WIDTH - title_len) / 2,
{
    (SECTION_WIDTH - title_len) / 2
}

/// A repository that finished, and how.
#[derive(Debug, PartialEq, Eq)]
pub struct Completion {
    pub name: String,
    pub success: bool,
}

/// A [`Completion`] as a plain value.
pub ghost struct CompletionModel {
    pub name: Seq<char>,
    pub success: bool,
}

impl View for Completion {
    type V = CompletionModel;

    open spec fn view(&self) -> CompletionModel {
        CompletionModel { name: self.name@, success: self.success }
    }
}

/// What one line of the board shows.
#[derive(Debug, PartialEq, Eq)]
pub enum SlotLabel {
    /// Earlier repositories are left out here.
    Ellipsis,
    /// This repository, with the mark of how it ended.
    Entry { name: String, success: bool },
    /// Nothing.
    Blank,
}

/// A [`SlotLabel`] as a plain value.
pub ghost enum LabelModel {
    Ellipsis,
    Entry { name: Seq<char>, success: bool },
    Blank,
}

impl View for SlotLabel {
    type V = LabelModel;

    open spec fn view(&self) -> LabelModel {
        match self {
            SlotLabel::Ellipsis => LabelModel::Ellipsis,
            SlotLabel::Entry { name, success } => LabelModel::Entry {
                name: name@,
                success: *success,
            },
            SlotLabel::Blank => LabelModel::Blank,
        }
    }
}

/// The board as a plain value.
pub ghost struct BoardModel {
    /// The repositories that finished last, the latest last.
    pub recent: Seq<CompletionModel>,
    /// How many repositories failed.
    pub failed: nat,
    /// How many repositories finished.
    pub total: nat,
}

/// `count` and one more, as far as a machine number goes.
pub open spec fn one_more(count: nat) -> nat {
    if count < usize::MAX {
        count + 1
    } else {
        count
    }
}

impl BoardModel {
    /// The board before any repository finished.
    pub open spec fn empty() -> BoardModel {
        BoardModel { recent: Seq::empty(), failed: 0, total: 0 }
    }

    /// The board after the repository `name` finished.
    pub open spec fn marked(self, name: Seq<char>, success: bool) -> BoardModel {
        let all = self.recent.push(CompletionModel { name, success });
        BoardModel {
            recent: if all.len() > MAX_VISIBLE_COMPLETIONS {
                all.subrange(all.len() - MAX_VISIBLE_COMPLETIONS, all.len() as int)
            } else {
                all
            },
            failed: if success {
                self.failed
            } else {
                one_more(self.failed)
            },
            total: one_more(self.total),
        }
    }

    /// What line `i` of the board shows. Once more repositories finished
    /// than the board has lines, the first line stands for those left out and
    /// the lines below it show the recent ones from the oldest on.
    pub open spec fn label(self, i: int) -> LabelModel {
        let crowded = self.total > MAX_VISIBLE_COMPLETIONS;
        if i == 0 && crowded {
            LabelModel::Ellipsis
        } else {
            let at = if crowded {
                i - 1
            } else {
                i
            };
            if 0 <= at < self.recent.len() {
                LabelModel::Entry { name: self.recent[at].name, success: self.recent[at].success }
            } else {
                LabelModel::Blank
            }
        }
    }

    /// The lines of the board, from the top.
    pub open spec fn labels(self) -> Seq<LabelModel> {
        Seq::new(MAX_VISIBLE_COMPLETIONS as nat, |i: int| self.label(i))
    }
}

/// The repositories of a workspace that finished last, with the counts of
/// those that finished and of those that failed.
#[derive(Debug)]
pub struct CompletionBoard {
    recent: VecDeque<Completion>,
    failed: usize,
    total: usize,
}

impl View for CompletionBoard {
    type V = BoardModel;

    closed spec fn view(&self) -> BoardModel {
        BoardModel {
            recent: Seq::new(self.recent@.len(), |i: int| self.recent@[i]@),
            failed: self.failed as nat,
            total: self.total as nat,
        }
    }
}

impl CompletionBoard {
    /// Whether the board is in a state that its own operations lead to: it
    /// lists no more repositories than it has lines.
    pub closed spec fn wf(&self) -> bool {
        self.recent@.len() <= MAX_VISIBLE_COMPLETIONS
    }

    /// A board on which nothing finished yet.
    pub fn new() -> (r: CompletionBoard)
        ensures
            r.wf(),
            r@ == BoardModel::empty(),
    {
        let r = CompletionBoard { recent: VecDeque::new(), failed: 0, total: 0 };
        assert(r@.recent =~= Seq::<CompletionModel>::empty());
        r
    }

    /// How many repositories finished.
    pub fn total(&self) -> (r: usize)
        ensures
            r == self@.total,
    {
        self.total
    }

    /// How many repositories failed.
    pub fn failed(&self) -> (r: usize)
        ensures
            r == self@.failed,
    {
        self.failed
    }

    /// Notes that the repository `name` finished: it is counted, and listed as
    /// the latest; the oldest leaves the list where it would grow beyond the
    /// lines of the board.
    pub fn mark_completed(&mut self, name: &str, success: bool)
        requires
            old(self).wf(),
        ensures
            final(self).wf(),
            final(self)@ == old(self)@.marked(name@, success),
    {
        let ghost before = self@;
        if !success && self.failed < usize::MAX {
            self.failed = self.failed + 1;
        }
        if self.total < usize::MAX {
            self.total = self.total + 1;
        }
        self.recent.push_back(Completion { name: name.to_string(), success });
        let ghost all = before.recent.push(CompletionModel { name: name@, success });
        assert(Seq::new(self.recent@.len(), |i: int| self.recent@[i]@) =~= all);
        if self.recent.len() > MAX_VISIBLE_COMPLETIONS {
            let _ = self.recent.pop_front();
            assert(Seq::new(self.recent@.len(), |i: int| self.recent@[i]@) =~= all.subrange(
                all.len() - MAX_VISIBLE_COMPLETIONS,
                all.len() as int,
            ));
        }
        assert(self@.recent == before.marked(name@, success).recent);
    }

    /// What each line of the board shows, from the top.
    pub fn slot_labels(&self) -> (r: Vec<SlotLabel>)
        requires
            self.wf(),
        ensures
            r@.len() == MAX_VISIBLE_COMPLETIONS,
            forall|i: int| 0 <= i < r@.len() ==> (#[trigger] r@[i])@ == self@.label(i),
    {
        let crowded = self.total > MAX_VISIBLE_COMPLETIONS;
        let mut labels: Vec<SlotLabel> = Vec::new();
        let mut i: usize = 0;
        while i < MAX_VISIBLE_COMPLETIONS
            invariant
                self.wf(),
                crowded == (self@.total > MAX_VISIBLE_COMPLETIONS),
                i <= MAX_VISIBLE_COMPLETIONS,
                labels@.len() == i,
                forall|j: int| 0 <= j < i ==> (#[trigger] labels@[j])@ == self@.label(j),
            decreases MAX_VISIBLE_COMPLETIONS - i,
        {
            if i == 0 && crowded {
                labels.push(SlotLabel::Ellipsis);
            } else {
                let at: usize = if crowded {
                    i - 1
                } else {
                    i
                };
                if at < self.recent.len() {
                    let entry = &self.recent[at];
                    labels.push(
                        SlotLabel::Entry { name: entry.name.clone(), success: entry.success },
                    );
                } else {
                    labels.push(SlotLabel::Blank);
                }
            }
            i += 1;
        }
        labels
    }
}

} // verus!
