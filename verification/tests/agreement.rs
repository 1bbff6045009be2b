use duct::IntoExecutablePath;
use nextest_runner::command::{join_strings, program_for};
use nextest_runner::keymap::{keys_lt, KeyOrder};
use nextest_runner::order::str_lt;
use nextest_runner::render::{paint, write_test_name, Styles};
use nextest_runner::sort::sort_by_key;
use nextest_runner::text::{same_text, u64_to_decimal};
use std::path::Path;

const TEXTS: [&str; 16] = [
    "",
    "a",
    "A",
    "ab",
    "b",
    "a::b",
    "a:b",
    "tests::foo",
    "tests::foo::bar",
    "tests:;foo",
    "\u{e9}",
    "e\u{301}",
    "\u{4e2d}\u{6587}",
    "\u{1f600}",
    "\u{ffff}",
    "z",
];

const PATHS: [&str; 14] = [
    "",
    ".",
    "/",
    "a",
    "./a",
    "a/b",
    "a//b",
    "a/./b",
    "a/b/",
    "/a/b",
    "/a.b",
    "/a/../b",
    "..",
    "a b",
];

#[test]
fn numbers_are_written_as_the_standard_library_writes_them() {
    let mut n: u64 = 0;
    loop {
        assert_eq!(u64_to_decimal(n), n.to_string());
        assert_eq!(u64_to_decimal(u64::MAX - n), (u64::MAX - n).to_string());
        if n > u64::MAX / 7 {
            break;
        }
        n = n * 7 + 3;
    }
    for n in 0..1100 {
        assert_eq!(u64_to_decimal(n), n.to_string());
    }
}

#[test]
fn texts_are_ordered_as_the_standard_library_orders_them() {
    for a in TEXTS {
        for b in TEXTS {
            assert_eq!(str_lt(a, b), a < b, "{:?} and {:?}", a, b);
            assert_eq!(keys_lt(KeyOrder::Text, a, b), a < b, "{:?} and {:?}", a, b);
            assert_eq!(same_text(a, b), a == b, "{:?} and {:?}", a, b);
        }
    }
}

#[test]
fn paths_are_ordered_as_paths() {
    for a in PATHS {
        for b in PATHS {
            assert_eq!(
                keys_lt(KeyOrder::Path, a, b),
                Path::new(a) < Path::new(b),
                "{:?} and {:?}",
                a,
                b
            );
        }
    }
}

#[test]
fn sorting_is_that_of_the_standard_library() {
    let mut texts: Vec<String> = TEXTS.iter().rev().map(|t| (*t).to_owned()).collect();
    texts.extend(TEXTS.iter().map(|t| (*t).to_owned()));
    let mut expected = texts.clone();
    expected.sort();
    assert_eq!(sort_by_key(texts), expected);
}

#[test]
fn lists_are_joined_as_the_standard_library_joins_them() {
    let texts: Vec<String> = TEXTS.iter().map(|t| (*t).to_owned()).collect();
    for n in 0..texts.len() {
        assert_eq!(join_strings(&texts[..n].to_vec(), ":"), texts[..n].join(":"));
    }
}

#[test]
fn a_binary_is_started_by_the_path_that_duct_would_start() {
    for path in PATHS {
        let expected = Path::new(path).to_executable();
        assert_eq!(program_for(None, path).as_str(), expected.to_str().unwrap(), "{:?}", path);
    }
}

#[test]
fn a_test_name_is_divided_at_its_last_separator() {
    let mut styles = Styles::default();
    styles.colorize();
    for name in TEXTS.iter().chain(["a:::b", "::", "a::", "::a", "a::::b", ":", ":::"].iter()) {
        let mut parts = name.rsplitn(2, "::");
        let last = parts.next().unwrap();
        let mut expected = String::new();
        if let Some(modules) = parts.next() {
            expected.push_str(&paint(styles.modules, modules));
            expected.push_str(&paint(styles.modules, "::"));
        }
        expected.push_str(&paint(styles.test_name, last));
        assert_eq!(write_test_name(name, &styles), expected, "{:?}", name);
        assert_eq!(write_test_name(name, &Styles::default()), *name);
    }
}
