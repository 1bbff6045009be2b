use nextest_runner::binary_list::{BinaryList, RustTestBinary};
use nextest_runner::errors::ParseTestListError;
use nextest_runner::filter::{
    CountPartition, FilterMatch, MismatchReason, RunIgnored, RustTestCaseSummary,
};
use nextest_runner::keymap::NameMap;
use nextest_runner::package::PackageInfo;
use nextest_runner::platform::BuildPlatform;
use nextest_runner::render::Styles;
use nextest_runner::suite::{RustTestArtifact, RustTestSuite};
use nextest_runner::summary::{BinaryListSummary, RustTestBinarySummary, TestListSummary};
use nextest_runner::test_list::TestList;
use std::collections::BTreeMap;

static PACKAGE_METADATA_ID: &str =
    "metadata-helper 0.1.0 (path+file:///Users/fakeuser/local/testcrates/metadata/metadata-helper)";

fn package_metadata() -> PackageInfo {
    PackageInfo {
        id: PACKAGE_METADATA_ID.to_owned(),
        name: "metadata-helper".to_owned(),
        manifest_dir: "/Users/fakeuser/local/testcrates/metadata/metadata-helper".to_owned(),
        version: "0.1.0".to_owned(),
        version_major: 0,
        version_minor: 1,
        version_patch: 0,
        version_pre: String::new(),
        authors: vec!["Fake User <fakeuser@example.com>".to_owned()],
        description: None,
        homepage: None,
        license: None,
        license_file: None,
        repository: None,
        is_proc_macro: false,
    }
}

fn cases_of(map: &NameMap<RustTestCaseSummary>) -> Vec<(String, RustTestCaseSummary)> {
    let mut out = Vec::new();
    for i in 0..map.len() {
        out.push((map.key_at(i).clone(), *map.value_at(i)));
    }
    out
}

fn outside_platform(platform: BuildPlatform) -> nextest_metadata::BuildPlatform {
    match platform {
        BuildPlatform::Target => nextest_metadata::BuildPlatform::Target,
        BuildPlatform::Host => nextest_metadata::BuildPlatform::Host,
    }
}

fn outside_binary(bin: &RustTestBinarySummary) -> nextest_metadata::RustTestBinarySummary {
    nextest_metadata::RustTestBinarySummary {
        binary_id: bin.binary_id.clone(),
        binary_name: bin.binary_name.clone(),
        package_id: bin.package_id.clone(),
        binary_path: bin.binary_path.clone().into(),
        build_platform: outside_platform(bin.build_platform),
    }
}

fn outside_case(case: &RustTestCaseSummary) -> nextest_metadata::RustTestCaseSummary {
    nextest_metadata::RustTestCaseSummary {
        ignored: case.ignored,
        filter_match: match case.filter_match {
            FilterMatch::Matches => nextest_metadata::FilterMatch::Matches,
            FilterMatch::Mismatch { reason } => nextest_metadata::FilterMatch::Mismatch {
                reason: match reason {
                    MismatchReason::Ignored => nextest_metadata::MismatchReason::Ignored,
                    MismatchReason::String => nextest_metadata::MismatchReason::String,
                    MismatchReason::Partition => nextest_metadata::MismatchReason::Partition,
                },
            },
        },
    }
}

fn outside_test_list(summary: &TestListSummary) -> nextest_metadata::TestListSummary {
    let mut rust_suites = BTreeMap::new();
    for i in 0..summary.rust_suites.len() {
        let suite = summary.rust_suites.value_at(i);
        let mut testcases = BTreeMap::new();
        for j in 0..suite.testcases.len() {
            testcases.insert(
                suite.testcases.key_at(j).clone(),
                outside_case(suite.testcases.value_at(j)),
            );
        }
        rust_suites.insert(
            summary.rust_suites.key_at(i).clone(),
            nextest_metadata::RustTestSuiteSummary {
                package_name: suite.package_name.clone(),
                binary: outside_binary(&suite.binary),
                cwd: suite.cwd.clone().into(),
                testcases,
            },
        );
    }
    let mut outside = nextest_metadata::TestListSummary::default();
    outside.test_count = summary.test_count;
    outside.rust_suites = rust_suites;
    outside
}

fn outside_binary_list(summary: &BinaryListSummary) -> nextest_metadata::BinaryListSummary {
    let mut rust_binaries = BTreeMap::new();
    for i in 0..summary.rust_binaries.len() {
        rust_binaries.insert(
            summary.rust_binaries.key_at(i).clone(),
            outside_binary(summary.rust_binaries.value_at(i)),
        );
    }
    nextest_metadata::BinaryListSummary { rust_binaries }
}

fn fake_artifact() -> RustTestArtifact {
    RustTestArtifact {
        binary_path: "/fake/binary".to_owned(),
        cwd: "/fake/cwd".to_owned(),
        package: package_metadata(),
        binary_name: "fake-binary".to_owned(),
        binary_id: "fake-package::fake-binary".to_owned(),
        build_platform: BuildPlatform::Target,
    }
}

#[test]
fn test_parse_test_list() {
    // Lines ending in ': benchmark' (output by the default Rust bencher) should be skipped.
    let non_ignored_output = "tests::foo::test_bar: test\n\
                              tests::baz::test_quux: test\n\
                              benches::should_be_skipped: benchmark\n";
    let ignored_output = "benches::ignored_should_be_skipped: benchmark\n\
                          tests::ignored::test_bar: test\n\
                          tests::baz::test_ignored: test\n";

    let test_filter = RunIgnored::Default;
    let fake_cwd = "/fake/cwd".to_owned();
    let fake_binary_name = "fake-binary".to_owned();
    let fake_binary_id = "fake-package::fake-binary".to_owned();
    let test_binary = RustTestArtifact {
        binary_path: "/fake/binary".to_owned(),
        cwd: fake_cwd.clone(),
        package: package_metadata(),
        binary_name: fake_binary_name.clone(),
        binary_id: fake_binary_id.clone(),
        build_platform: BuildPlatform::Target,
    };
    let test_list = TestList::new_with_outputs(
        vec![(test_binary, non_ignored_output.to_owned(), ignored_output.to_owned())],
        &test_filter,
    )
    .expect("valid output");

    let suites = test_list.iter();
    assert_eq!(suites.len(), 1);
    assert_eq!(suites[0].0, "/fake/binary");
    let suite: &RustTestSuite = suites[0].1;
    assert_eq!(
        cases_of(&suite.testcases),
        vec![
            (
                "tests::baz::test_ignored".to_owned(),
                RustTestCaseSummary {
                    ignored: true,
                    filter_match: FilterMatch::Mismatch { reason: MismatchReason::Ignored },
                },
            ),
            (
                "tests::baz::test_quux".to_owned(),
                RustTestCaseSummary { ignored: false, filter_match: FilterMatch::Matches },
            ),
            (
                "tests::foo::test_bar".to_owned(),
                RustTestCaseSummary { ignored: false, filter_match: FilterMatch::Matches },
            ),
            (
                "tests::ignored::test_bar".to_owned(),
                RustTestCaseSummary {
                    ignored: true,
                    filter_match: FilterMatch::Mismatch { reason: MismatchReason::Ignored },
                },
            ),
        ]
    );
    assert_eq!(suite.cwd, fake_cwd);
    assert_eq!(suite.build_platform, BuildPlatform::Target);
    assert_eq!(suite.package, package_metadata());
    assert_eq!(suite.binary_name, fake_binary_name);
    assert_eq!(suite.binary_id, fake_binary_id);

    // Check that the expected outputs are valid.
    static EXPECTED_HUMAN: &str = "fake-package::fake-binary:\n    \
                                   tests::baz::test_ignored (skipped)\n    \
                                   tests::baz::test_quux\n    \
                                   tests::foo::test_bar\n    \
                                   tests::ignored::test_bar (skipped)\n";
    static EXPECTED_HUMAN_VERBOSE: &str = "fake-package::fake-binary:\n  \
                                           bin: /fake/binary\n  \
                                           cwd: /fake/cwd\n  \
                                           build platform: target\n    \
                                           tests::baz::test_ignored (skipped)\n    \
                                           tests::baz::test_quux\n    \
                                           tests::foo::test_bar\n    \
                                           tests::ignored::test_bar (skipped)\n";
    static EXPECTED_JSON_PRETTY: &str = r#"{
  "test-count": 4,
  "rust-suites": {
    "fake-package::fake-binary": {
      "package-name": "metadata-helper",
      "binary-id": "fake-package::fake-binary",
      "binary-name": "fake-binary",
      "package-id": "metadata-helper 0.1.0 (path+file:///Users/fakeuser/local/testcrates/metadata/metadata-helper)",
      "binary-path": "/fake/binary",
      "build-platform": "target",
      "cwd": "/fake/cwd",
      "testcases": {
        "tests::baz::test_ignored": {
          "ignored": true,
          "filter-match": {
            "status": "mismatch",
            "reason": "ignored"
          }
        },
        "tests::baz::test_quux": {
          "ignored": false,
          "filter-match": {
            "status": "matches"
          }
        },
        "tests::foo::test_bar": {
          "ignored": false,
          "filter-match": {
            "status": "matches"
          }
        },
        "tests::ignored::test_bar": {
          "ignored": true,
          "filter-match": {
            "status": "mismatch",
            "reason": "ignored"
          }
        }
      }
    }
  }
}"#;

    assert_eq!(test_list.write_human(false, &Styles::default()), EXPECTED_HUMAN);
    assert_eq!(test_list.write_human(true, &Styles::default()), EXPECTED_HUMAN_VERBOSE);
    println!(
        "{}",
        serde_json::to_string_pretty(&outside_test_list(&test_list.to_summary()))
            .expect("json-pretty succeeded")
    );
    assert_eq!(
        serde_json::to_string_pretty(&outside_test_list(&test_list.to_summary()))
            .expect("json-pretty succeeded"),
        EXPECTED_JSON_PRETTY
    );
}

#[test]
fn test_parse_binary_list() {
    let fake_bin_test = RustTestBinary {
        id: "fake-package::bin/fake-binary".to_owned(),
        path: "/fake/binary".to_owned(),
        package_id: "fake-package 0.1.0 (path+file:///Users/fakeuser/project/fake-package)"
            .to_owned(),
        name: "fake-binary".to_owned(),
        build_platform: BuildPlatform::Target,
    };
    let fake_macro_test = RustTestBinary {
        id: "fake-macro::proc-macro/fake-macro".to_owned(),
        path: "/fake/macro".to_owned(),
        package_id: "fake-macro 0.1.0 (path+file:///Users/fakeuser/project/fake-macro)"
            .to_owned(),
        name: "fake-macro".to_owned(),
        build_platform: BuildPlatform::Host,
    };

    let binary_list = BinaryList { rust_binaries: vec![fake_bin_test, fake_macro_test] };

    // Check that the expected outputs are valid.
    static EXPECTED_HUMAN: &str = "fake-package::bin/fake-binary\n\
                                   fake-macro::proc-macro/fake-macro\n";
    static EXPECTED_HUMAN_VERBOSE: &str = "fake-package::bin/fake-binary:\n  \
                                           bin: /fake/binary\n  \
                                           build platform: target\n\
                                           fake-macro::proc-macro/fake-macro:\n  \
                                           bin: /fake/macro\n  \
                                           build platform: host\n";
    static EXPECTED_JSON_PRETTY: &str = r#"{
  "rust-binaries": {
    "fake-macro::proc-macro/fake-macro": {
      "binary-id": "fake-macro::proc-macro/fake-macro",
      "binary-name": "fake-macro",
      "package-id": "fake-macro 0.1.0 (path+file:///Users/fakeuser/project/fake-macro)",
      "binary-path": "/fake/macro",
      "build-platform": "host"
    },
    "fake-package::bin/fake-binary": {
      "binary-id": "fake-package::bin/fake-binary",
      "binary-name": "fake-binary",
      "package-id": "fake-package 0.1.0 (path+file:///Users/fakeuser/project/fake-package)",
      "binary-path": "/fake/binary",
      "build-platform": "target"
    }
  }
}"#;

    assert_eq!(binary_list.write_human(false, &Styles::default()), EXPECTED_HUMAN);
    assert_eq!(binary_list.write_human(true, &Styles::default()), EXPECTED_HUMAN_VERBOSE);
    assert_eq!(
        serde_json::to_string_pretty(&outside_binary_list(&binary_list.to_summary()))
            .expect("json-pretty succeeded"),
        EXPECTED_JSON_PRETTY
    );
}

#[test]
fn counts_add_up() {
    let first = fake_artifact();
    let mut second = fake_artifact();
    second.binary_path = "/fake/other".to_owned();
    second.binary_id = "fake-package::other".to_owned();
    let list = TestList::new_with_outputs(
        vec![
            (first, "a: test\nb: test\nc: test\n".to_owned(), "d: test\n".to_owned()),
            (second, "x: test\n".to_owned(), "y: test\nz: test\n".to_owned()),
        ],
        &RunIgnored::Default,
    )
    .expect("valid output");
    assert_eq!(list.binary_count(), 2);
    assert_eq!(list.test_count(), 7);
    assert_eq!(list.skip_count(), 3);
    assert_eq!(list.run_count(), 4);
    assert_eq!(list.run_count() + list.skip_count(), list.test_count());
    assert_eq!(list.iter_tests().len(), 7);
    // Asking again gives the same.
    assert_eq!(list.skip_count(), 3);
}

#[test]
fn empty_list_counts_nothing() {
    let list = TestList::empty();
    assert_eq!(list.binary_count(), 0);
    assert_eq!(list.test_count(), 0);
    assert_eq!(list.skip_count(), 0);
    assert_eq!(list.run_count(), 0);
    assert!(list.iter().is_empty());
    assert!(list.iter_tests().is_empty());
    assert!(list.get("/fake/binary").is_none());
    assert_eq!(list.write_human(false, &Styles::default()), "");
}

#[test]
fn a_test_of_both_passes_is_taken_from_the_ignored_pass() {
    // Names {a, c} are not marked ignored, names {a, b} are.
    let (path, suite) = TestList::process_output(
        fake_artifact(),
        &RunIgnored::Default,
        "a: test\nc: test\n",
        "a: test\nb: test\n",
    )
    .expect("valid output");
    assert_eq!(path, "/fake/binary");
    let skipped = RustTestCaseSummary {
        ignored: true,
        filter_match: FilterMatch::Mismatch { reason: MismatchReason::Ignored },
    };
    let run = RustTestCaseSummary { ignored: false, filter_match: FilterMatch::Matches };
    assert_eq!(
        cases_of(&suite.testcases),
        vec![("a".to_owned(), skipped), ("b".to_owned(), skipped), ("c".to_owned(), run)]
    );
    assert_eq!(suite.testcases.get("a"), Some(&skipped));
    assert_eq!(suite.testcases.get("d"), None);
}

#[test]
fn each_pass_has_a_fresh_filter_and_asks_in_sorted_order() {
    let (_, suite) = TestList::process_output(
        fake_artifact(),
        // Every second test, beginning with the first.
        &CountPartition { shard: 1, total_shards: 2 },
        "c: test\na: test\nb: test\n",
        "e: test\nd: test\n",
    )
    .expect("valid output");
    let cases = cases_of(&suite.testcases);
    let verdicts: Vec<(String, bool, bool)> = cases
        .iter()
        .map(|(name, case)| (name.clone(), case.ignored, case.filter_match.is_match()))
        .collect();
    assert_eq!(
        verdicts,
        vec![
            ("a".to_owned(), false, true),
            ("b".to_owned(), false, false),
            ("c".to_owned(), false, true),
            // The count starts anew for the ignored tests.
            ("d".to_owned(), true, true),
            ("e".to_owned(), true, false),
        ]
    );
}

#[test]
fn a_bad_line_fails_the_listing() {
    let bad = "a: test\ngarbage\nb: test\n";
    let error = TestList::process_output(fake_artifact(), &RunIgnored::Default, bad, "c: test\n")
        .err()
        .expect("no test list");
    assert_eq!(
        error,
        ParseTestListError::ParseLine {
            message: "line 'garbage' did not end with the string ': test' or ': benchmark'"
                .to_owned(),
            full_output: bad.to_owned(),
        }
    );
    // The output of the ignored tests is looked at second.
    let error =
        TestList::process_output(fake_artifact(), &RunIgnored::Default, "a: test\n", "oops\n")
            .err()
            .expect("no test list");
    assert_eq!(
        error,
        ParseTestListError::ParseLine {
            message: "line 'oops' did not end with the string ': test' or ': benchmark'"
                .to_owned(),
            full_output: "oops\n".to_owned(),
        }
    );
    let error = TestList::new_with_outputs(
        vec![
            (fake_artifact(), "a: test\n".to_owned(), String::new()),
            (fake_artifact(), "first bad".to_owned(), "second bad".to_owned()),
            (fake_artifact(), "third bad".to_owned(), String::new()),
        ],
        &RunIgnored::Default,
    )
    .err()
    .expect("no test list");
    assert_eq!(
        error,
        ParseTestListError::ParseLine {
            message: "line 'first bad' did not end with the string ': test' or ': benchmark'"
                .to_owned(),
            full_output: "first bad".to_owned(),
        }
    );
}

#[test]
fn suites_stand_in_the_order_of_their_paths() {
    let mut outputs = Vec::new();
    for path in ["/b", "/a.b", "/a/b", "/a"] {
        let mut artifact = fake_artifact();
        artifact.binary_path = path.to_owned();
        artifact.binary_id = format!("id{}", path);
        outputs.push((artifact, "t: test\n".to_owned(), String::new()));
    }
    let list = TestList::new_with_outputs(outputs, &RunIgnored::Default).expect("valid output");
    let paths: Vec<&str> = list.iter().iter().map(|pair| pair.0).collect();
    // Paths compare component by component: `a` comes before `a.b`.
    assert_eq!(paths, vec!["/a", "/a/b", "/a.b", "/b"]);
    let tests: Vec<(&str, &str)> =
        list.iter_tests().iter().map(|test| (test.binary, test.name)).collect();
    assert_eq!(tests, vec![("/a", "t"), ("/a/b", "t"), ("/a.b", "t"), ("/b", "t")]);
}

#[test]
fn a_later_binary_of_the_same_path_replaces_the_earlier_one() {
    let mut first = fake_artifact();
    first.binary_path = "/fake/dir/binary".to_owned();
    first.binary_id = "first".to_owned();
    let mut second = fake_artifact();
    // Another spelling of the same path.
    second.binary_path = "/fake/dir//binary".to_owned();
    second.binary_id = "second".to_owned();
    let list = TestList::new_with_outputs(
        vec![
            (first, "a: test\nb: test\n".to_owned(), String::new()),
            (second, "c: test\n".to_owned(), String::new()),
        ],
        &RunIgnored::Default,
    )
    .expect("valid output");
    assert_eq!(list.binary_count(), 1);
    assert_eq!(list.test_count(), 1);
    let suite = list.get("/fake/dir/binary").expect("the binary is listed");
    assert_eq!(suite.binary_id, "second");
    // The path has the spelling of the later binary.
    assert_eq!(list.iter()[0].0, "/fake/dir//binary");
    assert!(list.get("/fake/dir/binary/").is_some());
    assert!(list.get("/fake/dir").is_none());
}

#[test]
fn a_suite_without_tests_says_so() {
    let list = TestList::new_with_outputs(
        vec![(fake_artifact(), "b: benchmark\n".to_owned(), String::new())],
        &RunIgnored::Default,
    )
    .expect("valid output");
    assert_eq!(list.test_count(), 0);
    assert_eq!(
        list.write_human(false, &Styles::default()),
        "fake-package::fake-binary:\n    (no tests)\n"
    );
}

#[test]
fn colours_wrap_the_parts_of_a_listing() {
    let mut styles = Styles::default();
    styles.colorize();
    let list = TestList::new_with_outputs(
        vec![(fake_artifact(), "tests::foo::bar: test\nplain: test\n".to_owned(), String::new())],
        &RunIgnored::Default,
    )
    .expect("valid output");
    assert_eq!(
        list.write_human(true, &styles),
        "\u{1b}[35;1mfake-package::fake-binary\u{1b}[0m:\n  \
         \u{1b}[33;1mbin:\u{1b}[0m /fake/binary\n  \
         \u{1b}[33;1mcwd:\u{1b}[0m /fake/cwd\n  \
         \u{1b}[33;1mbuild platform:\u{1b}[0m target\n    \
         \u{1b}[34;1mplain\u{1b}[0m\n    \
         \u{1b}[36mtests::foo\u{1b}[0m\u{1b}[36m::\u{1b}[0m\u{1b}[34;1mbar\u{1b}[0m\n"
    );
    let binaries = BinaryList {
        rust_binaries: vec![RustTestBinary {
            id: "pkg".to_owned(),
            path: "/bin/pkg".to_owned(),
            package_id: "pkg 0.1.0".to_owned(),
            name: "pkg".to_owned(),
            build_platform: BuildPlatform::Host,
        }],
    };
    assert_eq!(binaries.write_human(false, &styles), "\u{1b}[35;1mpkg\u{1b}[0m\n");
}
