//! Lists of tests: every test of every binary, with what the filter said of it.

use crate::errors::{ParseTestListError, ParseTestListErrorView};
use crate::filter::{
    pass_verdicts, FilterMatch, RustTestCaseSummary, TestFilter, TestFilterBuilder,
};
use crate::keymap::{
    key_eq, key_lt, lemma_lookup_other, lemma_lookup_stored, lemma_rank_is,
    lemma_with_entry_sorted, lookup, strictly_sorted, with_entry, with_pair, Entries, KeyOrder,
    NameMap, PathMap,
};
use crate::list_format::{parse, parsed_names};
use crate::order::lemma_code_points_injective;
use crate::suite::{same_suite, RustTestArtifact, RustTestSuite, TestInstance};
use crate::text::texts;
use vstd::prelude::*;

verus! {

/// The number of test cases among `cases` that the filter did not match.
pub open spec fn skipped_in(cases: Entries<RustTestCaseSummary>) -> nat
    decreases cases.len(),
{
    if cases.len() == 0 {
        0
    } else {
        skipped_in(cases.drop_last()) + if cases.last().1.filter_match is Matches {
            0nat
        } else {
            1nat
        }
    }
}

/// The number of test cases among `cases` that the filter matched.
pub open spec fn matching_in(cases: Entries<RustTestCaseSummary>) -> nat
    decreases cases.len(),
{
    if cases.len() == 0 {
        0
    } else {
        matching_in(cases.drop_last()) + if cases.last().1.filter_match is Matches {
            1nat
        } else {
            0nat
        }
    }
}

/// The number of test cases of all `suites` together.
pub open spec fn total_cases(suites: Entries<RustTestSuite>) -> nat
    decreases suites.len(),
{
    if suites.len() == 0 {
        0
    } else {
        total_cases(suites.drop_last()) + suites.last().1.testcases@.len()
    }
}

/// The number of test cases of all `suites` that the filter did not match.
pub open spec fn total_skipped(suites: Entries<RustTestSuite>) -> nat
    decreases suites.len(),
{
    if suites.len() == 0 {
        0
    } else {
        total_skipped(suites.drop_last()) + skipped_in(suites.last().1.testcases@)
    }
}

/// The number of test cases of all `suites` that the filter matched.
pub open spec fn total_matching(suites: Entries<RustTestSuite>) -> nat
    decreases suites.len(),
{
    if suites.len() == 0 {
        0
    } else {
        total_matching(suites.drop_last()) + matching_in(suites.last().1.testcases@)
    }
}

/// The places of all test cases of `suites`: for each one the position of its
/// suite and its own position within the suite, suite by suite.
pub open spec fn places(suites: Entries<RustTestSuite>) -> Seq<(int, int)>
    decreases suites.len(),
{
    if suites.len() == 0 {
        Seq::<(int, int)>::empty()
    } else {
        places(suites.drop_last()) + Seq::new(
            suites.last().1.testcases@.len(),
            |j: int| (suites.len() - 1, j),
        )
    }
}

/// The places that `pairs` stand for.
pub open spec fn place_views(pairs: Seq<(usize, usize)>) -> Seq<(int, int)> {
    Seq::new(pairs.len(), |k: int| (pairs[k].0 as int, pairs[k].1 as int))
}

/// Every test case is matched or skipped, and none is both.
pub proof fn lemma_matching_and_skipped(cases: Entries<RustTestCaseSummary>)
    ensures
        matching_in(cases) + skipped_in(cases) == cases.len(),
    decreases cases.len(),
{
    if cases.len() > 0 {
        lemma_matching_and_skipped(cases.drop_last());
    }
}

/// The tests of a list that are run and those that are skipped are all its
/// tests: what `run_count` and `skip_count` return adds up to what
/// `test_count` returns.
pub proof fn lemma_total_matching_and_skipped(suites: Entries<RustTestSuite>)
    ensures
        total_matching(suites) + total_skipped(suites) == total_cases(suites),
    decreases suites.len(),
{
    if suites.len() > 0 {
        lemma_total_matching_and_skipped(suites.drop_last());
        lemma_matching_and_skipped(suites.last().1.testcases@);
    }
}

/// There is one place for each test case, and each place is that of a test case.
pub proof fn lemma_places(suites: Entries<RustTestSuite>)
    ensures
        places(suites).len() == total_cases(suites),
        forall|k: int|
            0 <= k < places(suites).len() ==> 0 <= (#[trigger] places(suites)[k]).0 < suites.len()
                && 0 <= places(suites)[k].1 < suites[places(suites)[k].0].1.testcases@.len(),
    decreases suites.len(),
{
    if suites.len() > 0 {
        let front = suites.drop_last();
        lemma_places(front);
        assert forall|k: int| 0 <= k < places(suites).len() implies 0 <= (#[trigger] places(
            suites,
        )[k]).0 < suites.len() && 0 <= places(suites)[k].1 < suites[places(
            suites,
        )[k].0].1.testcases@.len() by {
            if k < places(front).len() {
                assert(places(suites)[k] == places(front)[k]);
                assert(front[places(front)[k].0] == suites[places(front)[k].0]);
            }
        }
    }
}

/// `cases` after one pass over the tests of a binary: every name of `names`
/// is stored with the verdict that stands at its place in `verdicts`, marked
/// ignored or not as the pass is. A name that is there already is
/// overwritten, so that of two entries for one name the later one stays.
pub open spec fn with_pass(
    cases: Entries<RustTestCaseSummary>,
    names: Seq<Seq<char>>,
    verdicts: Seq<FilterMatch>,
    ignored: bool,
) -> Entries<RustTestCaseSummary>
    decreases names.len(),
{
    if names.len() == 0 {
        cases
    } else {
        with_entry(
            KeyOrder::Text,
            with_pass(cases, names.drop_last(), verdicts.drop_last(), ignored),
            names.last(),
            RustTestCaseSummary { ignored, filter_match: verdicts.last() },
        )
    }
}

/// The test cases of a binary whose tests that are not marked ignored are
/// `non_ignored` and whose ignored tests are `ignored`, each with its
/// verdicts: the pass over the tests that are not ignored comes first, the
/// pass over the ignored ones second.
pub open spec fn merged_cases(
    non_ignored: Seq<Seq<char>>,
    non_ignored_verdicts: Seq<FilterMatch>,
    ignored: Seq<Seq<char>>,
    ignored_verdicts: Seq<FilterMatch>,
) -> Entries<RustTestCaseSummary> {
    with_pass(
        with_pass(
            Seq::<(Seq<char>, RustTestCaseSummary)>::empty(),
            non_ignored,
            non_ignored_verdicts,
            false,
        ),
        ignored,
        ignored_verdicts,
        true,
    )
}

/// The last position at which `name` stands in `names`, or `-1` where it does
/// not stand there.
pub open spec fn last_position(names: Seq<Seq<char>>, name: Seq<char>) -> int
    decreases names.len(),
{
    if names.len() == 0 {
        -1
    } else if names.last() == name {
        names.len() - 1
    } else {
        last_position(names.drop_last(), name)
    }
}

/// `last_position` is the last position of `name`, and `-1` exactly where
/// `names` does not hold it.
pub proof fn lemma_last_position(names: Seq<Seq<char>>, name: Seq<char>)
    ensures
        -1 <= last_position(names, name) < names.len(),
        last_position(names, name) >= 0 ==> names[last_position(names, name)] == name,
        forall|i: int| last_position(names, name) < i < names.len() ==> names[i] != name,
        (last_position(names, name) >= 0) == names.contains(name),
    decreases names.len(),
{
    if names.len() > 0 && names.last() != name {
        let front = names.drop_last();
        lemma_last_position(front, name);
        assert forall|i: int| last_position(names, name) < i < names.len() implies names[i]
            != name by {
            if i < names.len() - 1 {
                assert(front[i] == names[i]);
            }
        }
        if last_position(names, name) >= 0 {
            assert(front[last_position(names, name)] == name);
        } else {
            assert forall|i: int| 0 <= i < names.len() implies names[i] != name by {}
        }
    }
}

/// What a pass leaves under a name: the verdict of the name's last place in
/// the pass, or what was there before where the pass does not hold the name.
pub proof fn lemma_with_pass(
    cases: Entries<RustTestCaseSummary>,
    names: Seq<Seq<char>>,
    verdicts: Seq<FilterMatch>,
    ignored: bool,
    name: Seq<char>,
)
    requires
        strictly_sorted(KeyOrder::Text, cases),
        names.len() == verdicts.len(),
    ensures
        strictly_sorted(KeyOrder::Text, with_pass(cases, names, verdicts, ignored)),
        lookup(KeyOrder::Text, with_pass(cases, names, verdicts, ignored), name)
            == if last_position(names, name) >= 0 {
            Some(
                RustTestCaseSummary {
                    ignored,
                    filter_match: verdicts[last_position(names, name)],
                },
            )
        } else {
            lookup(KeyOrder::Text, cases, name)
        },
    decreases names.len(),
{
    if names.len() > 0 {
        let front = with_pass(cases, names.drop_last(), verdicts.drop_last(), ignored);
        let case = RustTestCaseSummary { ignored, filter_match: verdicts.last() };
        lemma_with_pass(cases, names.drop_last(), verdicts.drop_last(), ignored, name);
        lemma_with_entry_sorted(KeyOrder::Text, front, names.last(), case);
        if names.last() == name {
            lemma_lookup_stored(KeyOrder::Text, front, name, case);
        } else {
            if key_eq(KeyOrder::Text, names.last(), name) {
                lemma_code_points_injective(names.last(), name);
            }
            lemma_lookup_other(KeyOrder::Text, front, names.last(), case, name);
            let p = last_position(names.drop_last(), name);
            lemma_last_position(names.drop_last(), name);
            if p >= 0 {
                assert(verdicts.drop_last()[p] == verdicts[p]);
            }
        }
    }
}

/// A test that the ignored pass lists is marked ignored and carries the
/// verdict of that pass, whether or not the other pass lists it too. A test
/// that only the other pass lists is not marked ignored and carries the
/// verdict of that pass. No other test is among the cases.
pub proof fn lemma_merged_cases(
    non_ignored: Seq<Seq<char>>,
    non_ignored_verdicts: Seq<FilterMatch>,
    ignored: Seq<Seq<char>>,
    ignored_verdicts: Seq<FilterMatch>,
    name: Seq<char>,
)
    requires
        non_ignored.len() == non_ignored_verdicts.len(),
        ignored.len() == ignored_verdicts.len(),
    ensures
        lookup(
            KeyOrder::Text,
            merged_cases(non_ignored, non_ignored_verdicts, ignored, ignored_verdicts),
            name,
        ) == if ignored.contains(name) {
            Some(
                RustTestCaseSummary {
                    ignored: true,
                    filter_match: ignored_verdicts[last_position(ignored, name)],
                },
            )
        } else if non_ignored.contains(name) {
            Some(
                RustTestCaseSummary {
                    ignored: false,
                    filter_match: non_ignored_verdicts[last_position(non_ignored, name)],
                },
            )
        } else {
            None
        },
{
    let none = Seq::<(Seq<char>, RustTestCaseSummary)>::empty();
    let first = with_pass(none, non_ignored, non_ignored_verdicts, false);
    lemma_with_pass(none, non_ignored, non_ignored_verdicts, false, name);
    lemma_with_pass(first, ignored, ignored_verdicts, true, name);
    lemma_last_position(non_ignored, name);
    lemma_last_position(ignored, name);
    crate::keymap::lemma_rank_bounds(KeyOrder::Text, none, name);
}

/// Whether `suite` is a suite of the binary `artifact` whose tests that are
/// not marked ignored are `non_ignored` and whose ignored tests are
/// `ignored`, as `filter` judges them: it carries what the binary carries,
/// and its test cases are the two passes merged, each with the verdicts of a
/// fresh evaluator of `filter` on the names of the pass in their order.
pub open spec fn is_suite_of<F: TestFilterBuilder>(
    filter: F,
    artifact: RustTestArtifact,
    non_ignored: Seq<Seq<char>>,
    ignored: Seq<Seq<char>>,
    suite: RustTestSuite,
) -> bool {
    &&& suite.binary_id == artifact.binary_id
    &&& suite.package == artifact.package
    &&& suite.binary_name == artifact.binary_name
    &&& suite.cwd == artifact.cwd
    &&& suite.build_platform == artifact.build_platform
    &&& suite.testcases@ == merged_cases(
        non_ignored,
        pass_verdicts(filter.fresh(), non_ignored, false),
        ignored,
        pass_verdicts(filter.fresh(), ignored, true),
    )
}

/// What listing the tests of one binary gives, where the binary wrote
/// `non_ignored` for its tests that are not marked ignored and `ignored` for
/// the others: the names of both passes, or the error of the first output
/// that is no test list.
pub open spec fn parsed_outputs(non_ignored: Seq<char>, ignored: Seq<char>) -> Result<
    (Seq<Seq<char>>, Seq<Seq<char>>),
    ParseTestListErrorView,
> {
    match parsed_names(non_ignored) {
        Err(e) => Err(e),
        Ok(first) => match parsed_names(ignored) {
            Err(e) => Err(e),
            Ok(second) => Ok((first, second)),
        },
    }
}

/// Asks a fresh evaluator of `filter` for its verdict on each of `names`, in
/// order. The names are those of tests marked ignored, or not, as `ignored`
/// says.
pub fn evaluate_pass<F: TestFilterBuilder>(
    filter: &F,
    names: &Vec<String>,
    ignored: bool,
) -> (verdicts: Vec<FilterMatch>)
    ensures
        verdicts@ == pass_verdicts(filter.fresh(), texts(names@), ignored),
        verdicts@.len() == names@.len(),
{
    let mut evaluator = filter.build();
    let mut verdicts: Vec<FilterMatch> = Vec::new();
    let ghost all = texts(names@);
    let mut i: usize = 0;
    assert(all.skip(0) == all);
    while i < names.len()
        invariant
            i <= names.len(),
            all == texts(names@),
            verdicts@.len() == i,
            pass_verdicts(filter.fresh(), all, ignored) == verdicts@ + pass_verdicts(
                evaluator,
                all.skip(i as int),
                ignored,
            ),
        decreases names.len() - i,
    {
        let ghost rest = all.skip(i as int);
        let ghost before = evaluator;
        let ghost done = verdicts@;
        let verdict = evaluator.filter_match(names[i].as_str(), ignored);
        verdicts.push(verdict);
        proof {
            assert(rest[0] == names@[i as int]@);
            assert(rest.drop_first() == all.skip(i + 1));
            let tail = pass_verdicts(evaluator, all.skip(i + 1), ignored);
            assert(done + (seq![verdict] + tail) =~= done.push(verdict) + tail);
        }
        i = i + 1;
    }
    proof {
        assert(all.skip(names.len() as int).len() == 0);
        assert(verdicts@ + Seq::<FilterMatch>::empty() =~= verdicts@);
    }
    verdicts
}

/// Stores every name of `names` in `testcases`, with the verdict that stands
/// at its place in `verdicts`. See [`with_pass`].
pub fn merge_pass(
    testcases: &mut NameMap<RustTestCaseSummary>,
    names: &Vec<String>,
    verdicts: &Vec<FilterMatch>,
    ignored: bool,
)
    requires
        names@.len() == verdicts@.len(),
    ensures
        final(testcases)@ == with_pass(old(testcases)@, texts(names@), verdicts@, ignored),
{
    let mut i: usize = 0;
    assert(texts(names@).take(0) =~= Seq::<Seq<char>>::empty());
    while i < names.len()
        invariant
            i <= names.len(),
            names@.len() == verdicts@.len(),
            testcases@ == with_pass(
                old(testcases)@,
                texts(names@).take(i as int),
                verdicts@.take(i as int),
                ignored,
            ),
        decreases names.len() - i,
    {
        proof {
            assert(texts(names@).take(i + 1).drop_last() == texts(names@).take(i as int));
            assert(verdicts@.take(i + 1).drop_last() == verdicts@.take(i as int));
            assert(texts(names@).take(i + 1).last() == names@[i as int]@);
            assert(verdicts@.take(i + 1).last() == verdicts@[i as int]);
        }
        testcases.insert(
            names[i].clone(),
            RustTestCaseSummary { ignored, filter_match: verdicts[i] },
        );
        i = i + 1;
    }
    proof {
        assert(texts(names@).take(names.len() as int) == texts(names@));
        assert(verdicts@.take(verdicts.len() as int) == verdicts@);
    }
}

/// The suite of the binary `test_binary`, and the path under which it goes
/// into a list: the binary's own. `non_ignored` are the names of the tests
/// that are not marked ignored and `ignored` those of the others, each with
/// the filter's verdicts on them.
pub fn suite_from_passes(
    test_binary: RustTestArtifact,
    non_ignored: &Vec<String>,
    non_ignored_verdicts: &Vec<FilterMatch>,
    ignored: &Vec<String>,
    ignored_verdicts: &Vec<FilterMatch>,
) -> (entry: (String, RustTestSuite))
    requires
        non_ignored@.len() == non_ignored_verdicts@.len(),
        ignored@.len() == ignored_verdicts@.len(),
    ensures
        entry.0 == test_binary.binary_path,
        entry.1.binary_id == test_binary.binary_id,
        entry.1.package == test_binary.package,
        entry.1.binary_name == test_binary.binary_name,
        entry.1.cwd == test_binary.cwd,
        entry.1.build_platform == test_binary.build_platform,
        entry.1.testcases@ == merged_cases(
            texts(non_ignored@),
            non_ignored_verdicts@,
            texts(ignored@),
            ignored_verdicts@,
        ),
{
    let mut testcases: NameMap<RustTestCaseSummary> = NameMap::new();
    merge_pass(&mut testcases, non_ignored, non_ignored_verdicts, false);
    merge_pass(&mut testcases, ignored, ignored_verdicts, true);
    let RustTestArtifact { binary_id, package, binary_path, binary_name, cwd, build_platform } =
        test_binary;
    (binary_path, RustTestSuite { binary_id, package, binary_name, cwd, build_platform, testcases })
}

/// A binary together with what it wrote when it was asked for its tests
/// that are not marked ignored, and for those that are.
pub type BinaryOutputs = (RustTestArtifact, String, String);

/// The error of the first binary of `outputs` whose output is no test list,
/// if there is such a binary.
pub open spec fn listing_error(outputs: Seq<BinaryOutputs>) -> Option<ParseTestListErrorView>
    decreases outputs.len(),
{
    if outputs.len() == 0 {
        None
    } else {
        match listing_error(outputs.drop_last()) {
            Some(e) => Some(e),
            None => match parsed_outputs(outputs.last().1@, outputs.last().2@) {
                Err(e) => Some(e),
                Ok(_) => None,
            },
        }
    }
}

/// An error among the first `n` binaries is the error of them all.
pub proof fn lemma_listing_error(outputs: Seq<BinaryOutputs>, n: int)
    requires
        0 <= n <= outputs.len(),
        listing_error(outputs.take(n)) is Some,
    ensures
        listing_error(outputs) == listing_error(outputs.take(n)),
    decreases outputs.len() - n,
{
    if n < outputs.len() {
        assert(outputs.take(n + 1).drop_last() == outputs.take(n));
        lemma_listing_error(outputs, n + 1);
    } else {
        assert(outputs.take(n) == outputs);
    }
}

/// `list` with each of `suites` stored under the path that stands at its
/// place in `paths`, one after the other. Of two suites under one path the
/// later one stays, under the spelling that its path has.
pub open spec fn with_suites(
    list: Entries<RustTestSuite>,
    paths: Seq<Seq<char>>,
    suites: Seq<RustTestSuite>,
) -> Entries<RustTestSuite>
    decreases paths.len(),
{
    if paths.len() == 0 {
        list
    } else {
        with_pair(
            KeyOrder::Path,
            with_suites(list, paths.drop_last(), suites.drop_last()),
            paths.last(),
            suites.last(),
        )
    }
}

/// The paths of the binaries of `outputs`.
pub open spec fn binary_paths(outputs: Seq<BinaryOutputs>) -> Seq<Seq<char>> {
    Seq::new(outputs.len(), |i: int| outputs[i].0.binary_path@)
}

/// Whether `suite` is a suite of the binary of `outputs`, made from what the
/// binary wrote.
pub open spec fn is_suite_of_outputs<F: TestFilterBuilder>(
    filter: F,
    outputs: BinaryOutputs,
    suite: RustTestSuite,
) -> bool {
    let names = parsed_outputs(outputs.1@, outputs.2@);
    names is Ok && is_suite_of(filter, outputs.0, names->Ok_0.0, names->Ok_0.1, suite)
}

/// Whether `suites` are suites of the binaries of `outputs`, one for each
/// and in their order.
pub open spec fn are_suites_of<F: TestFilterBuilder>(
    filter: F,
    outputs: Seq<BinaryOutputs>,
    suites: Seq<RustTestSuite>,
) -> bool {
    &&& suites.len() == outputs.len()
    &&& forall|i: int|
        0 <= i < outputs.len() ==> is_suite_of_outputs(filter, outputs[i], #[trigger] suites[i])
}

/// Every test of every binary of a build, with the filter's verdict on it.
///
/// Its model is the sequence of its suites, each under the path of its
/// binary, in the order of the paths.
#[derive(Debug)]
pub struct TestList {
    rust_suites: PathMap<RustTestSuite>,
    // The place of each test case, suite by suite.
    instances: Vec<(usize, usize)>,
    skip_count: usize,
}

impl View for TestList {
    type V = Entries<RustTestSuite>;

    closed spec fn view(&self) -> Entries<RustTestSuite> {
        self.rust_suites@
    }
}

/// Whether two lists hold the same suites under the same paths.
pub open spec fn same_suites(a: Entries<RustTestSuite>, b: Entries<RustTestSuite>) -> bool {
    &&& a.len() == b.len()
    &&& forall|i: int|
        0 <= i < a.len() ==> (#[trigger] a[i]).0 == b[i].0 && same_suite(a[i].1, b[i].1)
}

/// Lists that hold the same suites count the same tests, the same skipped
/// tests and the same tests to run.
pub proof fn lemma_same_suites_count_alike(a: Entries<RustTestSuite>, b: Entries<RustTestSuite>)
    requires
        same_suites(a, b),
    ensures
        total_cases(a) == total_cases(b),
        total_skipped(a) == total_skipped(b),
        total_matching(a) == total_matching(b),
    decreases a.len(),
{
    if a.len() > 0 {
        let front_a = a.drop_last();
        let front_b = b.drop_last();
        assert forall|i: int| 0 <= i < front_a.len() implies (#[trigger] front_a[i]).0
            == front_b[i].0 && same_suite(front_a[i].1, front_b[i].1) by {
            assert(front_a[i] == a[i] && front_b[i] == b[i]);
        }
        lemma_same_suites_count_alike(front_a, front_b);
        assert(same_suite(a[a.len() - 1].1, b[a.len() - 1].1));
    }
}

impl Clone for TestList {
    /// A list of copies of the suites of this list, under the same paths.
    /// It counts the tests as this list does.
    fn clone(&self) -> (copy: Self)
        ensures
            same_suites(copy@, self@),
            total_cases(copy@) == total_cases(self@),
            total_skipped(copy@) == total_skipped(self@),
            total_matching(copy@) == total_matching(self@),
    {
        proof {
            use_type_invariant(&self.rust_suites);
        }
        let mut rust_suites: PathMap<RustTestSuite> = PathMap::new();
        let mut i: usize = 0;
        while i < self.rust_suites.len()
            invariant
                i <= self@.len(),
                strictly_sorted(KeyOrder::Path, self@),
                rust_suites@.len() == i,
                forall|k: int|
                    0 <= k < i ==> (#[trigger] rust_suites@[k]).0 == self@[k].0 && same_suite(
                        rust_suites@[k].1,
                        self@[k].1,
                    ),
            decreases self@.len() - i,
        {
            let path = self.rust_suites.key_at(i).clone();
            let suite = self.rust_suites.value_at(i).duplicate();
            proof {
                // The path comes behind all that are copied, so it goes to the end.
                let done = rust_suites@;
                assert forall|k: int| 0 <= k < done.len() implies key_lt(
                    KeyOrder::Path,
                    #[trigger] done[k].0,
                    path@,
                ) by {
                    assert(done[k].0 == self@[k].0);
                }
                lemma_rank_is(KeyOrder::Path, done, path@, done.len() as int);
                assert(with_pair(KeyOrder::Path, done, path@, suite) =~= done.push((path@, suite)));
            }
            rust_suites.replace(path, suite);
            i = i + 1;
        }
        let copy = Self::from_suites(rust_suites);
        proof {
            lemma_same_suites_count_alike(copy@, self@);
        }
        copy
    }
}

impl TestList {
    #[verifier::type_invariant]
    spec fn counted(&self) -> bool {
        &&& place_views(self.instances@) == places(self.rust_suites@)
        &&& self.skip_count == total_skipped(self.rust_suites@)
    }

    /// The list of the tests of `rust_suites`, each suite under the path of
    /// its binary.
    pub fn from_suites(rust_suites: PathMap<RustTestSuite>) -> (list: Self)
        ensures
            list@ == rust_suites@,
    {
        let mut instances: Vec<(usize, usize)> = Vec::new();
        let mut skip_count: usize = 0;
        let ghost suites = rust_suites@;
        let mut i: usize = 0;
        assert(suites.take(0) =~= Seq::<(Seq<char>, RustTestSuite)>::empty());
        assert(place_views(instances@) =~= Seq::<(int, int)>::empty());
        while i < rust_suites.len()
            invariant
                i <= rust_suites@.len(),
                suites == rust_suites@,
                place_views(instances@) == places(suites.take(i as int)),
                skip_count == total_skipped(suites.take(i as int)),
                skip_count <= instances@.len(),
            decreases rust_suites@.len() - i,
        {
            let suite = rust_suites.value_at(i);
            let ghost cases = suite.testcases@;
            let ghost done = place_views(instances@);
            let ghost skipped = skip_count;
            let mut j: usize = 0;
            assert(cases.take(0) =~= Seq::<(Seq<char>, RustTestCaseSummary)>::empty());
            while j < suite.testcases.len()
                invariant
                    j <= cases.len(),
                    cases == suite.testcases@,
                    place_views(instances@) == done + Seq::new(j as nat, |k: int| (i as int, k)),
                    skip_count == skipped + skipped_in(cases.take(j as int)),
                    skipped <= done.len(),
                    skipped_in(cases.take(j as int)) <= j,
                decreases cases.len() - j,
            {
                proof {
                    assert(cases.take(j + 1).drop_last() == cases.take(j as int));
                    assert(cases.take(j + 1).last() == cases[j as int]);
                }
                let ghost before = instances@;
                instances.push((i, j));
                proof {
                    let row = Seq::new(j as nat, |k: int| (i as int, k));
                    let longer = Seq::new((j + 1) as nat, |k: int| (i as int, k));
                    assert(place_views(instances@) =~= place_views(before).push(
                        (i as int, j as int),
                    ));
                    assert(longer =~= row.push((i as int, j as int)));
                    assert((done + row).push((i as int, j as int)) =~= done + longer);
                }
                if !suite.testcases.value_at(j).filter_match.is_match() {
                    // No more tests are skipped than there are tests.
                    assert(skip_count < instances.len());
                    skip_count = skip_count + 1;
                }
                j = j + 1;
            }
            proof {
                assert(cases.take(cases.len() as int) == cases);
                let grown = suites.take(i + 1);
                assert(grown.drop_last() == suites.take(i as int));
                assert(grown.last() == suites[i as int]);
                assert(place_views(instances@) =~= places(grown));
            }
            i = i + 1;
        }
        proof {
            assert(suites.take(suites.len() as int) == suites);
        }
        TestList { rust_suites, instances, skip_count }
    }

    /// Lists the tests of one binary from what it wrote: `non_ignored` when
    /// asked for its tests that are not marked ignored, `ignored` when asked
    /// for the others.
    ///
    /// Each output is parsed and its names sorted; a fresh evaluator of
    /// `filter` then judges the names of the pass in that order. The pass over
    /// the ignored tests comes second, so a name that both outputs list ends
    /// up marked ignored. The result is the suite and the path of the binary,
    /// under which the suite goes into a list. An output that is no test list
    /// gives its error, the first output first.
    pub fn process_output<F: TestFilterBuilder>(
        test_binary: RustTestArtifact,
        filter: &F,
        non_ignored: &str,
        ignored: &str,
    ) -> (entry: Result<(String, RustTestSuite), ParseTestListError>)
        ensures
            match entry {
                Ok((path, suite)) => {
                    let names = parsed_outputs(non_ignored@, ignored@);
                    &&& names is Ok
                    &&& path == test_binary.binary_path
                    &&& is_suite_of(*filter, test_binary, names->Ok_0.0, names->Ok_0.1, suite)
                },
                Err(e) => parsed_outputs(non_ignored@, ignored@) == Err::<
                    (Seq<Seq<char>>, Seq<Seq<char>>),
                    ParseTestListErrorView,
                >(e@),
            },
    {
        // Each pass has an evaluator of its own, so that what the filter
        // counts in one does not reach the other.
        let first = match parse(non_ignored) {
            Ok(names) => names,
            Err(e) => {
                return Err(e);
            },
        };
        let first_verdicts = evaluate_pass(filter, &first, false);
        let second = match parse(ignored) {
            Ok(names) => names,
            Err(e) => {
                return Err(e);
            },
        };
        let second_verdicts = evaluate_pass(filter, &second, true);
        let entry = suite_from_passes(
            test_binary,
            &first,
            &first_verdicts,
            &second,
            &second_verdicts,
        );
        assert(entry.1.testcases@ == merged_cases(
            texts(first@),
            first_verdicts@,
            texts(second@),
            second_verdicts@,
        ));
        Ok(entry)
    }

    /// Lists the tests of the binaries of `test_bin_outputs` from what each
    /// of them wrote. See [`TestList::process_output`].
    ///
    /// The binaries are taken in order, and the first output that is no test
    /// list ends the work with its error. Each suite is stored under the path
    /// of its binary; of two binaries with one path the later one stays.
    pub fn new_with_outputs<F: TestFilterBuilder>(
        test_bin_outputs: Vec<BinaryOutputs>,
        filter: &F,
    ) -> (list: Result<Self, ParseTestListError>)
        ensures
            match list {
                Ok(list) => listing_error(test_bin_outputs@) is None && exists|
                    suites: Seq<RustTestSuite>,
                |
                    are_suites_of(*filter, test_bin_outputs@, suites) && list@
                        == #[trigger] with_suites(
                        Seq::<(Seq<char>, RustTestSuite)>::empty(),
                        binary_paths(test_bin_outputs@),
                        suites,
                    ),
                Err(e) => listing_error(test_bin_outputs@) == Some(e@),
            },
    {
        let mut rust_suites: PathMap<RustTestSuite> = PathMap::new();
        let ghost all = test_bin_outputs@;
        let ghost mut suites: Seq<RustTestSuite> = Seq::empty();
        assert(binary_paths(all).take(0) =~= Seq::<Seq<char>>::empty());
        assert(all.take(0) =~= Seq::<BinaryOutputs>::empty());
        for outputs in it: test_bin_outputs
            invariant
                it.seq() == all,
                listing_error(all.take(it.index() as int)) is None,
                are_suites_of(*filter, all.take(it.index() as int), suites),
                rust_suites@ == with_suites(
                    Seq::<(Seq<char>, RustTestSuite)>::empty(),
                    binary_paths(all).take(it.index() as int),
                    suites,
                ),
        {
            let ghost done = all.take(it.index() as int);
            let ghost grown = all.take(it.index() + 1);
            proof {
                assert(grown.drop_last() == done);
                assert(grown.last() == outputs);
            }
            let (test_binary, non_ignored, ignored) = outputs;
            assert(outputs.0 == test_binary && outputs.1 == non_ignored && outputs.2 == ignored);
            let listed =
                Self::process_output(test_binary, filter, non_ignored.as_str(), ignored.as_str());
            match listed {
                Err(e) => {
                    proof {
                        lemma_listing_error(all, it.index() + 1);
                    }
                    return Err(e);
                },
                Ok((path, suite)) => {
                    proof {
                        let longer = suites.push(suite);
                        assert(longer.drop_last() == suites);
                        assert forall|i: int| 0 <= i < grown.len() implies is_suite_of_outputs(
                            *filter,
                            grown[i],
                            #[trigger] longer[i],
                        ) by {
                            if i < done.len() {
                                assert(grown[i] == done[i]);
                                assert(longer[i] == suites[i]);
                            } else {
                                assert(grown[i] == outputs);
                                assert(longer[i] == suite);
                            }
                        }
                        assert(longer.len() == grown.len());
                        assert(are_suites_of(*filter, grown, longer));
                        let paths = binary_paths(all).take(it.index() + 1);
                        assert(paths.drop_last() == binary_paths(all).take(it.index() as int));
                        assert(paths.last() == path@);
                        suites = longer;
                    }
                    rust_suites.replace(path, suite);
                },
            }
        }
        proof {
            assert(all.take(all.len() as int) == all);
            assert(binary_paths(all).take(all.len() as int) == binary_paths(all));
        }
        Ok(Self::from_suites(rust_suites))
    }

    /// A list without tests.
    pub fn empty() -> (list: Self)
        ensures
            list@ == Seq::<(Seq<char>, RustTestSuite)>::empty(),
    {
        Self::from_suites(PathMap::new())
    }

    /// The number of tests of all binaries together.
    pub fn test_count(&self) -> (count: usize)
        ensures
            count == total_cases(self@),
    {
        proof {
            use_type_invariant(self);
            lemma_places(self@);
        }
        self.instances.len()
    }

    /// The number of tests that the filter did not match. They are skipped.
    pub fn skip_count(&self) -> (count: usize)
        ensures
            count == total_skipped(self@),
    {
        proof {
            use_type_invariant(self);
        }
        self.skip_count
    }

    /// The number of tests that the filter matched. They are run.
    pub fn run_count(&self) -> (count: usize)
        ensures
            count == total_matching(self@),
    {
        proof {
            use_type_invariant(self);
            lemma_places(self@);
            lemma_total_matching_and_skipped(self@);
        }
        self.instances.len() - self.skip_count
    }

    /// The number of binaries.
    pub fn binary_count(&self) -> (count: usize)
        ensures
            count == self@.len(),
    {
        self.rust_suites.len()
    }

    /// The suite of the binary at `test_bin`, or `None` where the list holds
    /// no such binary.
    pub fn get(&self, test_bin: &str) -> (suite: Option<&RustTestSuite>)
        ensures
            match suite {
                Some(s) => lookup(KeyOrder::Path, self@, test_bin@) == Some(*s),
                None => lookup(KeyOrder::Path, self@, test_bin@) is None,
            },
    {
        self.rust_suites.get(test_bin)
    }

    /// The binaries and their suites, in the order of the binaries' paths.
    /// The tests of each suite stand in the order of their names.
    pub fn iter(&self) -> (pairs: Vec<(&str, &RustTestSuite)>)
        ensures
            pairs@.len() == self@.len(),
            forall|i: int|
                0 <= i < pairs@.len() ==> (#[trigger] pairs@[i]).0@ == self@[i].0 && *pairs@[i].1
                    == self@[i].1,
            strictly_sorted(KeyOrder::Path, self@),
            forall|i: int|
                0 <= i < self@.len() ==> strictly_sorted(
                    KeyOrder::Text,
                    (#[trigger] self@[i]).1.testcases@,
                ),
    {
        proof {
            use_type_invariant(&self.rust_suites);
        }
        let mut pairs: Vec<(&str, &RustTestSuite)> = Vec::new();
        let mut i: usize = 0;
        while i < self.rust_suites.len()
            invariant
                i <= self@.len(),
                pairs@.len() == i,
                forall|k: int|
                    0 <= k < i ==> (#[trigger] pairs@[k]).0@ == self@[k].0 && *pairs@[k].1
                        == self@[k].1,
                forall|k: int|
                    0 <= k < i ==> strictly_sorted(
                        KeyOrder::Text,
                        (#[trigger] self@[k]).1.testcases@,
                    ),
            decreases self@.len() - i,
        {
            let suite = self.rust_suites.value_at(i);
            proof {
                use_type_invariant(&suite.testcases);
            }
            pairs.push((self.rust_suites.key_at(i).as_str(), suite));
            i = i + 1;
        }
        pairs
    }

    /// The tests of all binaries, binary by binary in the order of the
    /// binaries' paths, and within a binary in the order of the tests' names.
    pub fn iter_tests(&self) -> (tests: Vec<TestInstance<'_>>)
        ensures
            tests@.len() == total_cases(self@),
            tests@.len() == places(self@).len(),
            forall|k: int|
                0 <= k < tests@.len() ==> {
                    let suite = self@[places(self@)[k].0];
                    let case = suite.1.testcases@[places(self@)[k].1];
                    &&& 0 <= places(self@)[k].0 < self@.len()
                    &&& 0 <= places(self@)[k].1 < suite.1.testcases@.len()
                    &&& (#[trigger] tests@[k]).name@ == case.0
                    &&& tests@[k].binary@ == suite.0
                    &&& *tests@[k].bin_info == suite.1
                    &&& *tests@[k].test_info == case.1
                },
    {
        proof {
            use_type_invariant(self);
            lemma_places(self@);
        }
        let mut tests: Vec<TestInstance<'_>> = Vec::new();
        let mut k: usize = 0;
        while k < self.instances.len()
            invariant
                k <= self.instances@.len(),
                place_views(self.instances@) == places(self@),
                tests@.len() == k,
                forall|m: int|
                    0 <= m < places(self@).len() ==> 0 <= (#[trigger] places(self@)[m]).0
                        < self@.len() && 0 <= places(self@)[m].1 < self@[places(
                        self@,
                    )[m].0].1.testcases@.len(),
                forall|m: int|
                    0 <= m < k ==> {
                        let suite = self@[places(self@)[m].0];
                        let case = suite.1.testcases@[places(self@)[m].1];
                        &&& (#[trigger] tests@[m]).name@ == case.0
                        &&& tests@[m].binary@ == suite.0
                        &&& *tests@[m].bin_info == suite.1
                        &&& *tests@[m].test_info == case.1
                    },
            decreases self.instances@.len() - k,
        {
            let place = self.instances[k];
            assert(place_views(self.instances@)[k as int] == (place.0 as int, place.1 as int));
            let suite = self.rust_suites.value_at(place.0);
            let test = TestInstance::new(
                suite.testcases.key_at(place.1).as_str(),
                self.rust_suites.key_at(place.0).as_str(),
                suite,
                suite.testcases.value_at(place.1),
            );
            tests.push(test);
            k = k + 1;
        }
        tests
    }
}

} // verus!
