//! What a batch of updates amounts to: how many went through, how many did
//! not, and the exit code that says so.

use crate::repo::{ResultModel, UpdateResult};
use vstd::prelude::*;

verus! {

/// The plain values of `results`, in order.
pub open spec fn results_view(results: Seq<UpdateResult>) -> Seq<ResultModel> {
    Seq::new(results.len(), |i: int| results[i]@)
}

/// For each result, whether the update went through.
pub open spec fn tags(results: Seq<ResultModel>) -> Seq<bool> {
    Seq::new(results.len(), |i: int| results[i].outcome is Success)
}

/// How many of the updates went through.
pub open spec fn succeeded(results: Seq<ResultModel>) -> nat {
    tags(results).to_multiset().count(true)
}

/// How many of the updates failed.
pub open spec fn failed(results: Seq<ResultModel>) -> nat {
    tags(results).to_multiset().count(false)
}

/// The exit code for `results`: 0 where nothing failed (so also where nothing
/// was to be done), 2 where something failed and nothing went through, 1
/// where some failed and some went through.
pub open spec fn exit_code_of(results: Seq<ResultModel>) -> i32 {
    if failed(results) == 0 {
        0
    } else if succeeded(results) == 0 {
        2
    } else {
        1
    }
}

/// The counts of a batch of updates.
#[derive(Debug, Clone, Copy, PartialEq, Eq)]
pub struct Summary {
    pub succeeded: usize,
    pub failed: usize,
}

impl Summary {
    /// How many updates there were.
    pub fn total(&self) -> (r: usize)
        requires
            self.succeeded + self.failed <= usize::MAX,
        ensures
            r == self.succeeded + self.failed,
    {
        self.succeeded + self.failed
    }

    /// The exit code that goes with the counts.
    pub fn exit_code(&self) -> (r: i32)
        ensures
            r == (if self.failed == 0 {
                0i32
            } else if self.succeeded == 0 {
                2i32
            } else {
                1i32
            }),
    {
        if self.failed == 0 {
            0
        } else if self.succeeded == 0 {
            2
        } else {
            1
        }
    }
}

/// One more result adds one to the count of its tag.
proof fn lemma_counts_step(results: Seq<ResultModel>, n: int)
    requires
        0 <= n < results.len(),
    ensures
        succeeded(results.take(n + 1)) == succeeded(results.take(n)) + (if results[n].outcome
            is Success {
            1nat
        } else {
            0nat
        }),
        failed(results.take(n + 1)) == failed(results.take(n)) + (if results[n].outcome
            is Success {
            0nat
        } else {
            1nat
        }),
        succeeded(results.take(n)) + failed(results.take(n)) == n,
{
    broadcast use vstd::seq_lib::group_to_multiset_ensures;

    let before = tags(results.take(n));
    let after = tags(results.take(n + 1));
    assert(after =~= before.push(results[n].outcome is Success));
    lemma_counts_add_up(results.take(n));
}

/// Every update either went through or failed.
pub proof fn lemma_counts_add_up(results: Seq<ResultModel>)
    ensures
        succeeded(results) + failed(results) == results.len(),
    decreases results.len(),
{
    broadcast use vstd::seq_lib::group_to_multiset_ensures;

    if results.len() == 0 {
        assert(tags(results) =~= Seq::<bool>::empty());
    } else {
        let before = results.drop_last();
        lemma_counts_add_up(before);
        assert(tags(results) =~= tags(before).push(results.last().outcome is Success));
    }
}

/// Counts the updates that went through and those that failed.
pub fn summarize(results: &[UpdateResult]) -> (r: Summary)
    ensures
        r.succeeded == succeeded(results_view(results@)),
        r.failed == failed(results_view(results@)),
        r.succeeded + r.failed == results@.len(),
{
    let ghost all = results_view(results@);
    let mut ok: usize = 0;
    let mut bad: usize = 0;
    let mut i: usize = 0;
    proof {
        assert(tags(all.take(0)) =~= Seq::<bool>::empty());
        broadcast use vstd::seq_lib::group_to_multiset_ensures;

    }
    while i < results.len()
        invariant
            all == results_view(results@),
            i <= results@.len(),
            ok == succeeded(all.take(i as int)),
            bad == failed(all.take(i as int)),
            ok + bad == i,
        decreases results@.len() - i,
    {
        proof {
            lemma_counts_step(all, i as int);
        }
        if results[i].outcome.is_success() {
            ok = ok + 1;
        } else {
            bad = bad + 1;
        }
        i += 1;
    }
    assert(all.take(results@.len() as int) =~= all);
    Summary { succeeded: ok, failed: bad }
}

/// The exit code for a batch of updates.
pub fn exit_code(results: &[UpdateResult]) -> (r: i32)
    ensures
        r == exit_code_of(results_view(results@)),
{
    summarize(results).exit_code()
}

/// The updates that went through and those that failed, each in the order of
/// `results`.
pub fn partition(results: &[UpdateResult]) -> (r: (Vec<&UpdateResult>, Vec<&UpdateResult>))
    ensures
        r.0@ == results@.map_values(|result: UpdateResult| &result).filter(
            |result: &UpdateResult| result@.outcome is Success,
        ),
        r.1@ == results@.map_values(|result: UpdateResult| &result).filter(
            |result: &UpdateResult| !(result@.outcome is Success),
        ),
{
    let ghost all = results@.map_values(|result: UpdateResult| &result);
    let ghost went = |result: &UpdateResult| result@.outcome is Success;
    let ghost fell = |result: &UpdateResult| !(result@.outcome is Success);
    let mut successes: Vec<&UpdateResult> = Vec::new();
    let mut failures: Vec<&UpdateResult> = Vec::new();
    let mut i: usize = 0;
    proof {
        assert(all.take(0) =~= Seq::<&UpdateResult>::empty());
        reveal(Seq::filter);
    }
    while i < results.len()
        invariant
            all == results@.map_values(|result: UpdateResult| &result),
            went == |result: &UpdateResult| result@.outcome is Success,
            fell == |result: &UpdateResult| !(result@.outcome is Success),
            i <= results@.len(),
            successes@ == all.take(i as int).filter(went),
            failures@ == all.take(i as int).filter(fell),
        decreases results@.len() - i,
    {
        proof {
            reveal(Seq::filter);
            assert(all.take(i + 1).drop_last() =~= all.take(i as int));
            assert(all.take(i + 1).last() == &results@[i as int]);
        }
        if results[i].outcome.is_success() {
            successes.push(&results[i]);
        } else {
            failures.push(&results[i]);
        }
        i += 1;
    }
    assert(all.take(results@.len() as int) =~= all);
    (successes, failures)
}

} // verus!
