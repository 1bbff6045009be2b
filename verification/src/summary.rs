//! Summaries: lists of binaries and of tests in the shape in which they are
//! handed to other programs, keyed by binary identifier.

use crate::binary_list::{BinaryList, RustTestBinary, RustTestBinaryView};
use crate::filter::RustTestCaseSummary;
use crate::keymap::{
    entry_views, key_eq, key_lt, lemma_lookup_other, lemma_lookup_stored, lemma_rank_is,
    lemma_with_entry_sorted, lemma_with_entry_views, lookup, strictly_sorted, with_entry, Entries,
    KeyOrder, NameMap,
};
use crate::order::lemma_code_points_injective;
use crate::platform::BuildPlatform;
use crate::sort::views;
use crate::suite::RustTestSuite;
use crate::test_list::{total_cases, TestList};
use vstd::prelude::*;

verus! {

/// The summary of one test binary.
#[derive(Clone, Debug, PartialEq, Eq)]
pub struct RustTestBinarySummary {
    /// The identifier of the binary.
    pub binary_id: String,
    /// The name of the binary within its package.
    pub binary_name: String,
    /// The identifier of the package that the binary belongs to.
    pub package_id: String,
    /// The path of the binary.
    pub binary_path: String,
    /// The platform the binary was built for.
    pub build_platform: BuildPlatform,
}

impl View for RustTestBinarySummary {
    type V = RustTestBinaryView;

    open spec fn view(&self) -> RustTestBinaryView {
        RustTestBinaryView {
            id: self.binary_id@,
            path: self.binary_path@,
            package_id: self.package_id@,
            name: self.binary_name@,
            build_platform: self.build_platform,
        }
    }
}

/// The summary of a list of binaries, by binary identifier.
#[derive(Clone, Debug, PartialEq, Eq)]
pub struct BinaryListSummary {
    /// The binaries, each under its identifier.
    pub rust_binaries: NameMap<RustTestBinarySummary>,
}

/// The summary of the tests of one binary.
#[derive(Clone, Debug, PartialEq, Eq)]
pub struct RustTestSuiteSummary {
    /// The name of the package that the binary belongs to.
    pub package_name: String,
    /// The binary.
    pub binary: RustTestBinarySummary,
    /// The directory in which the binary is run.
    pub cwd: String,
    /// The test cases by name.
    pub testcases: NameMap<RustTestCaseSummary>,
}

/// The model of a `RustTestSuiteSummary`.
pub struct RustTestSuiteSummaryView {
    /// The name of the package.
    pub package_name: Seq<char>,
    /// The binary.
    pub binary: RustTestBinaryView,
    /// The directory in which the binary is run.
    pub cwd: Seq<char>,
    /// The test cases, in the order of their names.
    pub testcases: Entries<RustTestCaseSummary>,
}

impl View for RustTestSuiteSummary {
    type V = RustTestSuiteSummaryView;

    open spec fn view(&self) -> RustTestSuiteSummaryView {
        RustTestSuiteSummaryView {
            package_name: self.package_name@,
            binary: self.binary@,
            cwd: self.cwd@,
            testcases: self.testcases@,
        }
    }
}

/// The summary of a list of tests, by binary identifier.
#[derive(Clone, Debug, PartialEq, Eq)]
pub struct TestListSummary {
    /// The number of tests of all binaries together, skipped ones included.
    pub test_count: usize,
    /// The suites, each under the identifier of its binary.
    pub rust_suites: NameMap<RustTestSuiteSummary>,
}

/// `binaries` by identifier. Of two binaries with one identifier the later
/// one stays.
pub open spec fn binaries_by_id(binaries: Seq<RustTestBinaryView>) -> Entries<RustTestBinaryView>
    decreases binaries.len(),
{
    if binaries.len() == 0 {
        Seq::<(Seq<char>, RustTestBinaryView)>::empty()
    } else {
        with_entry(
            KeyOrder::Text,
            binaries_by_id(binaries.drop_last()),
            binaries.last().id,
            binaries.last(),
        )
    }
}

/// The values of `entries`, in the order of their keys.
pub open spec fn values<V>(entries: Entries<V>) -> Seq<V> {
    Seq::new(entries.len(), |i: int| entries[i].1)
}

/// The summary of `suite`, whose binary lies at `binary_path`.
pub open spec fn suite_summary(
    binary_path: Seq<char>,
    suite: RustTestSuite,
) -> RustTestSuiteSummaryView {
    RustTestSuiteSummaryView {
        package_name: suite.package.name@,
        binary: RustTestBinaryView {
            id: suite.binary_id@,
            path: binary_path,
            package_id: suite.package.id@,
            name: suite.binary_name@,
            build_platform: suite.build_platform,
        },
        cwd: suite.cwd@,
        testcases: suite.testcases@,
    }
}

/// The summaries of `suites` by binary identifier. Of two suites whose
/// binaries have one identifier the later one stays.
pub open spec fn suites_by_id(suites: Entries<RustTestSuite>) -> Entries<RustTestSuiteSummaryView>
    decreases suites.len(),
{
    if suites.len() == 0 {
        Seq::<(Seq<char>, RustTestSuiteSummaryView)>::empty()
    } else {
        with_entry(
            KeyOrder::Text,
            suites_by_id(suites.drop_last()),
            suites.last().1.binary_id@,
            suite_summary(suites.last().0, suites.last().1),
        )
    }
}

/// The summaries of binaries stand in the order of their identifiers.
pub proof fn lemma_binaries_by_id_sorted(binaries: Seq<RustTestBinaryView>)
    ensures
        strictly_sorted(KeyOrder::Text, binaries_by_id(binaries)),
    decreases binaries.len(),
{
    if binaries.len() > 0 {
        lemma_binaries_by_id_sorted(binaries.drop_last());
        lemma_with_entry_sorted(
            KeyOrder::Text,
            binaries_by_id(binaries.drop_last()),
            binaries.last().id,
            binaries.last(),
        );
    }
}

/// A list of binaries that stand in the strict order of their identifiers
/// comes back from its summary as it was: every binary with its identifier,
/// its path, its platform and all else that it carries.
pub proof fn lemma_binary_list_round_trip(binaries: Seq<RustTestBinaryView>)
    requires
        forall|i: int, j: int|
            0 <= i < j < binaries.len() ==> key_lt(
                KeyOrder::Text,
                #[trigger] binaries[i].id,
                #[trigger] binaries[j].id,
            ),
    ensures
        binaries_by_id(binaries) == Seq::new(
            binaries.len(),
            |i: int| (binaries[i].id, binaries[i]),
        ),
        values(binaries_by_id(binaries)) == binaries,
    decreases binaries.len(),
{
    let expected = Seq::new(binaries.len(), |i: int| (binaries[i].id, binaries[i]));
    if binaries.len() > 0 {
        let front = binaries.drop_last();
        let last = binaries.last();
        assert forall|i: int, j: int| 0 <= i < j < front.len() implies key_lt(
            KeyOrder::Text,
            #[trigger] front[i].id,
            #[trigger] front[j].id,
        ) by {
            assert(front[i] == binaries[i] && front[j] == binaries[j]);
        }
        lemma_binary_list_round_trip(front);
        let done = binaries_by_id(front);
        assert forall|i: int| 0 <= i < done.len() implies key_lt(
            KeyOrder::Text,
            #[trigger] done[i].0,
            last.id,
        ) by {
            assert(done[i].0 == binaries[i].id);
        }
        lemma_rank_is(KeyOrder::Text, done, last.id, done.len() as int);
        assert(binaries_by_id(binaries) =~= expected);
    } else {
        assert(binaries_by_id(binaries) =~= expected);
    }
    assert(values(expected) =~= binaries);
}

/// The summaries of suites stand in the order of their binaries' identifiers.
pub proof fn lemma_suites_by_id_sorted(suites: Entries<RustTestSuite>)
    ensures
        strictly_sorted(KeyOrder::Text, suites_by_id(suites)),
    decreases suites.len(),
{
    if suites.len() > 0 {
        lemma_suites_by_id_sorted(suites.drop_last());
        lemma_with_entry_sorted(
            KeyOrder::Text,
            suites_by_id(suites.drop_last()),
            suites.last().1.binary_id@,
            suite_summary(suites.last().0, suites.last().1),
        );
    }
}

/// The summary of a list of tests holds, under the identifier of a binary,
/// that binary's suite with its identifier, its path and its platform, where
/// no later suite of the list has the same identifier.
pub proof fn lemma_summary_keeps_binary(suites: Entries<RustTestSuite>, i: int)
    requires
        0 <= i < suites.len(),
        forall|j: int|
            i < j < suites.len() ==> (#[trigger] suites[j]).1.binary_id@
                != suites[i].1.binary_id@,
    ensures
        lookup(KeyOrder::Text, suites_by_id(suites), suites[i].1.binary_id@) == Some(
            suite_summary(suites[i].0, suites[i].1),
        ),
        suite_summary(suites[i].0, suites[i].1).binary.id == suites[i].1.binary_id@,
        suite_summary(suites[i].0, suites[i].1).binary.path == suites[i].0,
        suite_summary(suites[i].0, suites[i].1).binary.build_platform
            == suites[i].1.build_platform,
    decreases suites.len(),
{
    let front = suites.drop_last();
    let last = suites.last();
    let summary = suite_summary(last.0, last.1);
    lemma_suites_by_id_sorted(front);
    if i == suites.len() - 1 {
        lemma_lookup_stored(KeyOrder::Text, suites_by_id(front), last.1.binary_id@, summary);
    } else {
        assert(front[i] == suites[i]);
        assert forall|j: int| i < j < front.len() implies (#[trigger] front[j]).1.binary_id@
            != front[i].1.binary_id@ by {
            assert(front[j] == suites[j]);
        }
        lemma_summary_keeps_binary(front, i);
        if key_eq(KeyOrder::Text, last.1.binary_id@, suites[i].1.binary_id@) {
            lemma_code_points_injective(last.1.binary_id@, suites[i].1.binary_id@);
        }
        lemma_lookup_other(
            KeyOrder::Text,
            suites_by_id(front),
            last.1.binary_id@,
            summary,
            suites[i].1.binary_id@,
        );
    }
}

impl BinaryList {
    /// The binaries of `summary`, in the order of their identifiers. Nothing
    /// is checked.
    pub fn from_summary(summary: BinaryListSummary) -> (list: Self)
        ensures
            views(list.rust_binaries@) == values(entry_views(summary.rust_binaries@)),
    {
        let mut rust_binaries: Vec<RustTestBinary> = Vec::new();
        let mut i: usize = 0;
        while i < summary.rust_binaries.len()
            invariant
                i <= summary.rust_binaries@.len(),
                rust_binaries@.len() == i,
                forall|j: int|
                    0 <= j < i ==> (#[trigger] rust_binaries@[j])@ == summary.rust_binaries@[j].1@,
            decreases summary.rust_binaries@.len() - i,
        {
            let bin = summary.rust_binaries.value_at(i);
            rust_binaries.push(
                RustTestBinary {
                    name: bin.binary_name.clone(),
                    path: bin.binary_path.clone(),
                    package_id: bin.package_id.clone(),
                    id: bin.binary_id.clone(),
                    build_platform: bin.build_platform,
                },
            );
            i = i + 1;
        }
        assert(views(rust_binaries@) =~= values(entry_views(summary.rust_binaries@)));
        BinaryList { rust_binaries }
    }

    /// The summary of this list: its binaries by identifier.
    pub fn to_summary(&self) -> (summary: BinaryListSummary)
        ensures
            entry_views(summary.rust_binaries@) == binaries_by_id(views(self.rust_binaries@)),
    {
        let mut rust_binaries: NameMap<RustTestBinarySummary> = NameMap::new();
        let ghost all = views(self.rust_binaries@);
        let mut i: usize = 0;
        assert(all.take(0) =~= Seq::<RustTestBinaryView>::empty());
        assert(entry_views(rust_binaries@) =~= Seq::<(Seq<char>, RustTestBinaryView)>::empty());
        while i < self.rust_binaries.len()
            invariant
                i <= self.rust_binaries@.len(),
                all == views(self.rust_binaries@),
                entry_views(rust_binaries@) == binaries_by_id(all.take(i as int)),
            decreases self.rust_binaries@.len() - i,
        {
            let bin = &self.rust_binaries[i];
            let summary = RustTestBinarySummary {
                binary_name: bin.name.clone(),
                package_id: bin.package_id.clone(),
                binary_path: bin.path.clone(),
                binary_id: bin.id.clone(),
                build_platform: bin.build_platform,
            };
            proof {
                assert(all.take(i + 1).drop_last() == all.take(i as int));
                assert(all.take(i + 1).last() == bin@);
                assert(summary@ == bin@);
                lemma_with_entry_views(KeyOrder::Text, rust_binaries@, bin.id@, summary);
            }
            rust_binaries.insert(bin.id.clone(), summary);
            i = i + 1;
        }
        proof {
            assert(all.take(all.len() as int) == all);
        }
        BinaryListSummary { rust_binaries }
    }
}

impl TestList {
    /// The summary of this list: the number of its tests, and its suites by
    /// binary identifier.
    pub fn to_summary(&self) -> (summary: TestListSummary)
        ensures
            summary.test_count == total_cases(self@),
            entry_views(summary.rust_suites@) == suites_by_id(self@),
    {
        let mut rust_suites: NameMap<RustTestSuiteSummary> = NameMap::new();
        let pairs = self.iter();
        let ghost all = self@;
        let mut i: usize = 0;
        assert(all.take(0) =~= Seq::<(Seq<char>, RustTestSuite)>::empty());
        assert(entry_views(rust_suites@) =~= Seq::<(Seq<char>, RustTestSuiteSummaryView)>::empty());
        while i < pairs.len()
            invariant
                i <= pairs@.len(),
                pairs@.len() == all.len(),
                forall|k: int|
                    0 <= k < pairs@.len() ==> (#[trigger] pairs@[k]).0@ == all[k].0 && *pairs@[k].1
                        == all[k].1,
                entry_views(rust_suites@) == suites_by_id(all.take(i as int)),
            decreases pairs@.len() - i,
        {
            let (binary_path, info) = pairs[i];
            let testsuite = RustTestSuiteSummary {
                package_name: info.package.name.clone(),
                binary: RustTestBinarySummary {
                    binary_name: info.binary_name.clone(),
                    package_id: info.package.id.clone(),
                    binary_path: binary_path.to_string(),
                    binary_id: info.binary_id.clone(),
                    build_platform: info.build_platform,
                },
                cwd: info.cwd.clone(),
                testcases: info.testcases.duplicate(),
            };
            proof {
                assert(all.take(i + 1).drop_last() == all.take(i as int));
                assert(all.take(i + 1).last() == all[i as int]);
                assert(testsuite@ == suite_summary(all[i as int].0, all[i as int].1));
                lemma_with_entry_views(KeyOrder::Text, rust_suites@, info.binary_id@, testsuite);
            }
            rust_suites.insert(info.binary_id.clone(), testsuite);
            i = i + 1;
        }
        proof {
            assert(all.take(all.len() as int) == all);
        }
        TestListSummary { test_count: self.test_count(), rust_suites }
    }
}

} // verus!
