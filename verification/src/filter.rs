//! Filter verdicts, and the capability that hands them out.
//!
//! A filter is whatever implements [`TestFilterBuilder`]: it says, as a spec
//! function, what a fresh evaluator of it is, and its evaluator says what its
//! verdict on a test is and what it is after it has judged one. The lists of
//! tests are stated over these. Two plain filters are at hand: by whether a
//! test is marked ignored ([`RunIgnored`]), and by count
//! ([`CountPartition`]).

use vstd::prelude::*;

verus! {

/// Why a test does not match a filter.
#[derive(Clone, Copy, Debug, PartialEq, Eq, Structural)]
pub enum MismatchReason {
    /// The test does not match the run-ignored option.
    Ignored,
    /// The test does not match the string filters.
    String,
    /// The test is in a different partition.
    Partition,
}

/// The verdict of a filter on one test.
#[derive(Clone, Copy, Debug, PartialEq, Eq, Structural)]
pub enum FilterMatch {
    /// The test matches the filter and is run.
    Matches,
    /// The test does not match the filter and is skipped.
    Mismatch {
        /// Why the filter did not match.
        reason: MismatchReason,
    },
}

impl FilterMatch {
    /// Whether the verdict is `Matches`.
    pub fn is_match(&self) -> (matches: bool)
        ensures
            matches == (*self is Matches),
    {
        match self {
            FilterMatch::Matches => true,
            FilterMatch::Mismatch { .. } => false,
        }
    }
}

/// What is known of one test case: whether it is marked ignored, and what the
/// filter said of it.
#[derive(Clone, Copy, Debug, PartialEq, Eq, Structural)]
pub struct RustTestCaseSummary {
    /// Whether the test is marked ignored. Such a test is run with `--ignored`.
    pub ignored: bool,
    /// The filter's verdict. Only tests that match are run.
    pub filter_match: FilterMatch,
}

/// A filter under construction. Each pass over a list of tests asks it for a
/// fresh evaluator, so that what one pass counts never reaches the next.
pub trait TestFilterBuilder {
    /// The evaluator that `build` hands out.
    type Filter: TestFilter;

    /// The evaluator that this builder hands out: one that has judged nothing.
    spec fn fresh(&self) -> Self::Filter;

    /// A fresh evaluator.
    fn build(&self) -> (filter: Self::Filter)
        ensures
            filter == self.fresh(),
    ;
}

/// An evaluator that judges tests one after the other. It may keep count of
/// what it has seen, so that its verdict on a test may depend on the tests
/// that it judged before.
pub trait TestFilter: Sized {
    /// The verdict of the evaluator, as it stands, on the test `test_name`,
    /// which is marked ignored or not.
    spec fn verdict(&self, test_name: Seq<char>, ignored: bool) -> FilterMatch;

    /// The evaluator after it has judged the test `test_name`.
    spec fn judged(&self, test_name: Seq<char>, ignored: bool) -> Self;

    /// Judges the test `test_name`, which is marked ignored or not.
    fn filter_match(&mut self, test_name: &str, ignored: bool) -> (verdict: FilterMatch)
        ensures
            verdict == old(self).verdict(test_name@, ignored),
            *final(self) == old(self).judged(test_name@, ignored),
    ;
}

/// The verdicts of an evaluator that starts as `filter` on the tests `names`,
/// judged one after the other, all marked ignored or not as `ignored` says.
pub open spec fn pass_verdicts<E: TestFilter>(
    filter: E,
    names: Seq<Seq<char>>,
    ignored: bool,
) -> Seq<FilterMatch>
    decreases names.len(),
{
    if names.len() == 0 {
        Seq::<FilterMatch>::empty()
    } else {
        seq![filter.verdict(names[0], ignored)] + pass_verdicts(
            filter.judged(names[0], ignored),
            names.drop_first(),
            ignored,
        )
    }
}

/// There is one verdict for each test.
pub proof fn lemma_pass_verdicts_len<E: TestFilter>(filter: E, names: Seq<Seq<char>>, ignored: bool)
    ensures
        pass_verdicts(filter, names, ignored).len() == names.len(),
    decreases names.len(),
{
    if names.len() > 0 {
        lemma_pass_verdicts_len(filter.judged(names[0], ignored), names.drop_first(), ignored);
    }
}

/// Which tests are run by whether they are marked ignored. This is the
/// simplest of filters: it looks at nothing else and keeps no count.
#[derive(Clone, Copy, Debug, PartialEq, Eq, Structural)]
pub enum RunIgnored {
    /// The tests that are not marked ignored.
    Default,
    /// The tests that are marked ignored.
    IgnoredOnly,
    /// All tests.
    All,
}

/// The verdict of `run_ignored` on a test that is marked ignored or not.
pub open spec fn run_ignored_verdict(run_ignored: RunIgnored, ignored: bool) -> FilterMatch {
    match run_ignored {
        RunIgnored::Default => if ignored {
            FilterMatch::Mismatch { reason: MismatchReason::Ignored }
        } else {
            FilterMatch::Matches
        },
        RunIgnored::IgnoredOnly => if ignored {
            FilterMatch::Matches
        } else {
            FilterMatch::Mismatch { reason: MismatchReason::Ignored }
        },
        RunIgnored::All => FilterMatch::Matches,
    }
}

impl TestFilterBuilder for RunIgnored {
    type Filter = RunIgnored;

    open spec fn fresh(&self) -> RunIgnored {
        *self
    }

    fn build(&self) -> (filter: RunIgnored) {
        *self
    }
}

impl TestFilter for RunIgnored {
    open spec fn verdict(&self, test_name: Seq<char>, ignored: bool) -> FilterMatch {
        run_ignored_verdict(*self, ignored)
    }

    open spec fn judged(&self, test_name: Seq<char>, ignored: bool) -> RunIgnored {
        *self
    }

    fn filter_match(&mut self, test_name: &str, ignored: bool) -> (verdict: FilterMatch) {
        match self {
            RunIgnored::Default => if ignored {
                FilterMatch::Mismatch { reason: MismatchReason::Ignored }
            } else {
                FilterMatch::Matches
            },
            RunIgnored::IgnoredOnly => if ignored {
                FilterMatch::Matches
            } else {
                FilterMatch::Mismatch { reason: MismatchReason::Ignored }
            },
            RunIgnored::All => FilterMatch::Matches,
        }
    }
}

/// A filter that deals the tests out to `total_shards` shards, one test to
/// each shard in turn, and matches the tests of the shard `shard`. Shards
/// are counted from one, and every pass deals anew.
#[derive(Clone, Copy, Debug, PartialEq, Eq, Structural)]
pub struct CountPartition {
    /// The shard whose tests are matched.
    pub shard: u64,
    /// The number of shards.
    pub total_shards: u64,
}

/// The evaluator of a `CountPartition`.
#[derive(Clone, Copy, Debug, PartialEq, Eq, Structural)]
pub struct CountPartitioner {
    /// The shard whose tests are matched.
    pub shard: u64,
    /// The number of shards.
    pub total_shards: u64,
    /// The number of shards that have had their test in the current round.
    pub dealt: u64,
}

/// The number of shards that have had their test once one more test is
/// dealt: one more, or none where the round is over.
pub open spec fn dealt_next(total_shards: u64, dealt: u64) -> u64 {
    if total_shards <= 1 || dealt >= total_shards - 1 {
        0
    } else {
        (dealt + 1) as u64
    }
}

impl TestFilterBuilder for CountPartition {
    type Filter = CountPartitioner;

    open spec fn fresh(&self) -> CountPartitioner {
        CountPartitioner { shard: self.shard, total_shards: self.total_shards, dealt: 0 }
    }

    fn build(&self) -> (filter: CountPartitioner) {
        CountPartitioner { shard: self.shard, total_shards: self.total_shards, dealt: 0 }
    }
}

impl TestFilter for CountPartitioner {
    open spec fn verdict(&self, test_name: Seq<char>, ignored: bool) -> FilterMatch {
        if self.shard >= 1 && self.dealt == self.shard - 1 {
            FilterMatch::Matches
        } else {
            FilterMatch::Mismatch { reason: MismatchReason::Partition }
        }
    }

    open spec fn judged(&self, test_name: Seq<char>, ignored: bool) -> CountPartitioner {
        CountPartitioner { dealt: dealt_next(self.total_shards, self.dealt), ..*self }
    }

    fn filter_match(&mut self, test_name: &str, ignored: bool) -> (verdict: FilterMatch) {
        let verdict = if self.shard >= 1 && self.dealt == self.shard - 1 {
            FilterMatch::Matches
        } else {
            FilterMatch::Mismatch { reason: MismatchReason::Partition }
        };
        if self.total_shards <= 1 || self.dealt >= self.total_shards - 1 {
            self.dealt = 0;
        } else {
            self.dealt = self.dealt + 1;
        }
        verdict
    }
}

} // verus!
