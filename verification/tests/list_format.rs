use nextest_runner::errors::ParseTestListError;
use nextest_runner::list_format::{parse, parse_impl};
use nextest_runner::render::{paint, write_test_name, Paint, Styles};
use nextest_runner::sort::sort_by_key;
use nextest_runner::text::{clone_or_empty, concat2, from_chars, same_text, to_chars};

fn strings(items: &[&str]) -> Vec<String> {
    items.iter().map(|s| (*s).to_owned()).collect()
}

fn bad_line(line: &str, output: &str) -> ParseTestListError {
    ParseTestListError::ParseLine {
        message: format!(
            "line '{}' did not end with the string ': test' or ': benchmark'",
            line
        ),
        full_output: output.to_owned(),
    }
}

#[test]
fn a_test_line_gives_a_name() {
    assert_eq!(parse("mod::test_a: test"), Ok(strings(&["mod::test_a"])));
    assert_eq!(parse("mod::test_a: test\n"), Ok(strings(&["mod::test_a"])));
}

#[test]
fn a_benchmark_line_is_dropped() {
    assert_eq!(parse("bench::b1: benchmark"), Ok(Vec::new()));
    assert_eq!(
        parse("a: test\nbench::b1: benchmark\nb: test\n"),
        Ok(strings(&["a", "b"]))
    );
    // The marker is the whole of `: benchmark`.
    assert_eq!(parse("x benchmark"), Err(bad_line("x benchmark", "x benchmark")));
    // A benchmark of a name that looks like a test.
    assert_eq!(parse("a: test: benchmark"), Ok(Vec::new()));
    assert_eq!(parse("a: benchmark: test"), Ok(strings(&["a: benchmark"])));
}

#[test]
fn any_other_line_is_an_error() {
    assert_eq!(parse("garbage"), Err(bad_line("garbage", "garbage")));
    assert_eq!(parse("a: test\n\nb: test\n"), Err(bad_line("", "a: test\n\nb: test\n")));
    assert_eq!(parse("\n"), Err(bad_line("", "\n")));
    assert_eq!(parse("a: tes"), Err(bad_line("a: tes", "a: tes")));
    assert_eq!(parse("a: test "), Err(bad_line("a: test ", "a: test ")));
    assert_eq!(parse("a test"), Err(bad_line("a test", "a test")));
    // The first bad line is reported.
    assert_eq!(parse("x: test\none\ntwo\n"), Err(bad_line("one", "x: test\none\ntwo\n")));
    assert_eq!(
        parse_impl("b: test\na: tset\n"),
        Err(bad_line("a: tset", "b: test\na: tset\n"))
    );
}

#[test]
fn names_are_sorted() {
    assert_eq!(parse(""), Ok(Vec::new()));
    assert_eq!(
        parse("b: test\na: test\nc: test\nab: test\nB: test\n"),
        Ok(strings(&["B", "a", "ab", "b", "c"]))
    );
    // Not so before sorting.
    assert_eq!(parse_impl("b: test\na: test\n"), Ok(strings(&["b", "a"])));
    // A name that is listed twice comes twice.
    assert_eq!(parse("b: test\na: test\nb: test\n"), Ok(strings(&["a", "b", "b"])));
    // An empty name is a name.
    assert_eq!(parse(": test\n"), Ok(strings(&[""])));
    // Names are compared by code point.
    assert_eq!(
        parse("\u{e9}: test\nz: test\n\u{1f600}: test\n\u{4e2d}: test\n"),
        Ok(strings(&["z", "\u{e9}", "\u{4e2d}", "\u{1f600}"]))
    );
}

#[test]
fn lines_end_with_a_line_feed_or_with_both() {
    assert_eq!(parse("a: test\r\nb: test\r\n"), Ok(strings(&["a", "b"])));
    assert_eq!(parse("a: test\r\nb: test"), Ok(strings(&["a", "b"])));
    // A carriage return alone ends no line.
    assert_eq!(parse("a: test\rb: test\n"), Ok(strings(&["a: test\rb"])));
    assert_eq!(parse("a: test\r"), Err(bad_line("a: test\r", "a: test\r")));
    // Only one carriage return belongs to the line ending.
    assert_eq!(parse("a: test\r\r\n"), Err(bad_line("a: test\r", "a: test\r\r\n")));
}

#[test]
fn sorting_keeps_equal_things_in_order() {
    assert_eq!(sort_by_key(Vec::<String>::new()), Vec::<String>::new());
    assert_eq!(sort_by_key(strings(&["c", "a", "b"])), strings(&["a", "b", "c"]));
    assert_eq!(sort_by_key(strings(&["a", "b", "c"])), strings(&["a", "b", "c"]));
    assert_eq!(
        sort_by_key(strings(&["c", "b", "a", "c", "a"])),
        strings(&["a", "a", "b", "c", "c"])
    );
}

#[test]
fn text_helpers() {
    assert_eq!(to_chars("a\u{e9}\u{1f600}"), vec!['a', '\u{e9}', '\u{1f600}']);
    assert_eq!(to_chars(""), Vec::<char>::new());
    let chars = vec!['h', 'e', 'l', 'l', 'o'];
    assert_eq!(from_chars(&chars, 1, 4), "ell");
    assert_eq!(from_chars(&chars, 0, 5), "hello");
    assert_eq!(from_chars(&chars, 2, 2), "");
    assert!(same_text("a", "a"));
    assert!(!same_text("a", "b"));
    assert!(!same_text("a", "ab"));
    assert_eq!(concat2("ab", "cd"), "abcd");
    assert_eq!(clone_or_empty(&Some("x".to_owned())), "x");
    assert_eq!(clone_or_empty(&None), "");
}

#[test]
fn test_names_are_painted_in_two_parts() {
    let plain = Styles::default();
    assert_eq!(plain, Styles::plain());
    assert_eq!(write_test_name("a::b::c", &plain), "a::b::c");
    assert_eq!(write_test_name("", &plain), "");
    let mut colours = Styles::default();
    colours.colorize();
    assert_eq!(
        colours,
        Styles {
            binary_id: Paint::BoldMagenta,
            test_name: Paint::BoldBlue,
            modules: Paint::Cyan,
            field: Paint::BoldYellow,
        }
    );
    assert_eq!(
        write_test_name("a::b::c", &colours),
        "\u{1b}[36ma::b\u{1b}[0m\u{1b}[36m::\u{1b}[0m\u{1b}[34;1mc\u{1b}[0m"
    );
    assert_eq!(write_test_name("c", &colours), "\u{1b}[34;1mc\u{1b}[0m");
    // The last `::` divides the name.
    assert_eq!(
        write_test_name("a:::b", &colours),
        "\u{1b}[36ma:\u{1b}[0m\u{1b}[36m::\u{1b}[0m\u{1b}[34;1mb\u{1b}[0m"
    );
    assert_eq!(
        write_test_name("::", &colours),
        "\u{1b}[36m\u{1b}[0m\u{1b}[36m::\u{1b}[0m\u{1b}[34;1m\u{1b}[0m"
    );
    assert_eq!(paint(Paint::Plain, "x"), "x");
    assert_eq!(paint(Paint::BoldMagenta, "x"), "\u{1b}[35;1mx\u{1b}[0m");
    assert_eq!(paint(Paint::BoldBlue, "x"), "\u{1b}[34;1mx\u{1b}[0m");
    assert_eq!(paint(Paint::BoldYellow, "x"), "\u{1b}[33;1mx\u{1b}[0m");
    assert_eq!(paint(Paint::Cyan, "x"), "\u{1b}[36mx\u{1b}[0m");
}

/// The names that `input` lists, or the first bad line, with the lines
/// taken as the standard library takes them.
fn names_by_std_lines(input: &str) -> Result<Vec<String>, String> {
    let mut names = Vec::new();
    for line in input.lines() {
        if line.ends_with(": benchmark") {
            continue;
        }
        match line.strip_suffix(": test") {
            Some(name) => names.push(name.to_owned()),
            None => return Err(line.to_owned()),
        }
    }
    Ok(names)
}

#[test]
fn lines_are_those_of_the_standard_library() {
    for input in [
        "",
        "a: test",
        "a: test\n",
        "a: test\r",
        "a: test\r\n",
        "a: test\n\r",
        "\r\n: test",
        "a: test\r\r\n",
        "a: test\n\nb: test",
        "x\r: test\r\n\r\ny: test",
        "\n",
        "\r",
        "\r\n",
        "a: test\nb: test\r",
        "b: benchmark\r\na: test\r\n",
        "\u{e9}: test\r\n\u{4e2d}: test",
    ] {
        let expected = names_by_std_lines(input).map_err(|line| bad_line(&line, input));
        assert_eq!(parse_impl(input), expected, "for {:?}", input);
    }
}
