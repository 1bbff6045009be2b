//! The listings that a person reads: one binary after the other, with the
//! tests of each on indented lines.

use crate::binary_list::{BinaryList, RustTestBinary, RustTestBinaryView};
use crate::filter::RustTestCaseSummary;
use crate::keymap::{Entries, NameMap};
use crate::platform::platform_text;
use crate::sort::views;
use crate::suite::RustTestSuite;
use crate::test_list::TestList;
use crate::text::{from_chars, to_chars};
use indent_write::io::IndentWriter;
use owo_colors::Style;
use std::io::Write;
use vstd::prelude::*;

verus! {

/// How a listing is written.
#[derive(Clone, Copy, Debug, PartialEq, Eq, Structural)]
pub enum OutputFormat {
    /// For a person to read.
    Human {
        /// Whether paths and platforms are shown as well.
        verbose: bool,
    },
    /// For a program to read.
    Serializable(SerializableFormat),
}

/// A format that programs read.
#[derive(Clone, Copy, Debug, PartialEq, Eq, Structural)]
pub enum SerializableFormat {
    /// JSON on one line.
    Json,
    /// JSON with line breaks and indentation.
    JsonPretty,
}

/// The look of a piece of text on a terminal.
#[derive(Clone, Copy, Debug, PartialEq, Eq, Structural)]
pub enum Paint {
    /// As it is.
    Plain,
    /// Bold and magenta.
    BoldMagenta,
    /// Bold and blue.
    BoldBlue,
    /// Bold and yellow.
    BoldYellow,
    /// Cyan.
    Cyan,
}

/// The looks of the parts of a listing.
#[derive(Clone, Copy, Debug, PartialEq, Eq, Structural)]
pub struct Styles {
    /// The look of a binary's identifier.
    pub binary_id: Paint,
    /// The look of the name of a test, without the modules it lies in.
    pub test_name: Paint,
    /// The look of the modules that a test lies in.
    pub modules: Paint,
    /// The look of the name of a field.
    pub field: Paint,
}

/// `text` between the escape sequence that switches the look `paint` on and
/// the one that switches every look off. Plain text is written as it is.
pub open spec fn painted(paint: Paint, text: Seq<char>) -> Seq<char> {
    match paint {
        Paint::Plain => text,
        Paint::BoldMagenta => "\x1b[35;1m"@ + text + "\x1b[0m"@,
        Paint::BoldBlue => "\x1b[34;1m"@ + text + "\x1b[0m"@,
        Paint::BoldYellow => "\x1b[33;1m"@ + text + "\x1b[0m"@,
        Paint::Cyan => "\x1b[36m"@ + text + "\x1b[0m"@,
    }
}

/// `text` as `owo_colors` displays it in a style that is magenta and bold
/// (`Style::style`, and `Display` of what it returns): the text between the
/// escape sequence for both and the reset sequence.
#[verifier::external_body]
fn bold_magenta(text: &str) -> (out: String)
    ensures
        out@ == "\x1b[35;1m"@ + text@ + "\x1b[0m"@,
{
    Style::new().magenta().bold().style(text).to_string()
}

/// `text` as `owo_colors` displays it in a style that is blue and bold
/// (`Style::style`, and `Display` of what it returns): the text between the
/// escape sequence for both and the reset sequence.
#[verifier::external_body]
fn bold_blue(text: &str) -> (out: String)
    ensures
        out@ == "\x1b[34;1m"@ + text@ + "\x1b[0m"@,
{
    Style::new().blue().bold().style(text).to_string()
}

/// `text` as `owo_colors` displays it in a style that is yellow and bold
/// (`Style::style`, and `Display` of what it returns): the text between the
/// escape sequence for both and the reset sequence.
#[verifier::external_body]
fn bold_yellow(text: &str) -> (out: String)
    ensures
        out@ == "\x1b[33;1m"@ + text@ + "\x1b[0m"@,
{
    Style::new().yellow().bold().style(text).to_string()
}

/// `text` as `owo_colors` displays it in a style that is cyan
/// (`Style::style`, and `Display` of what it returns): the text between the
/// escape sequence for cyan and the reset sequence.
#[verifier::external_body]
fn cyan(text: &str) -> (out: String)
    ensures
        out@ == "\x1b[36m"@ + text@ + "\x1b[0m"@,
{
    Style::new().cyan().style(text).to_string()
}

/// `text` in the look `look`.
pub fn paint(look: Paint, text: &str) -> (out: String)
    ensures
        out@ == painted(look, text@),
{
    match look {
        Paint::Plain => text.to_string(),
        Paint::BoldMagenta => bold_magenta(text),
        Paint::BoldBlue => bold_blue(text),
        Paint::BoldYellow => bold_yellow(text),
        Paint::Cyan => cyan(text),
    }
}

impl Styles {
    /// Everything plain.
    pub fn plain() -> (styles: Self)
        ensures
            styles == (Styles {
                binary_id: Paint::Plain,
                test_name: Paint::Plain,
                modules: Paint::Plain,
                field: Paint::Plain,
            }),
    {
        Styles {
            binary_id: Paint::Plain,
            test_name: Paint::Plain,
            modules: Paint::Plain,
            field: Paint::Plain,
        }
    }

    /// Switches the colours on: identifiers of binaries bold magenta, names
    /// of tests bold blue, names of fields bold yellow, modules cyan.
    pub fn colorize(&mut self)
        ensures
            *final(self) == (Styles {
                binary_id: Paint::BoldMagenta,
                test_name: Paint::BoldBlue,
                modules: Paint::Cyan,
                field: Paint::BoldYellow,
            }),
    {
        self.binary_id = Paint::BoldMagenta;
        self.test_name = Paint::BoldBlue;
        self.field = Paint::BoldYellow;
        self.modules = Paint::Cyan;
    }
}

impl Default for Styles {
    fn default() -> (styles: Self)
        ensures
            styles == (Styles {
                binary_id: Paint::Plain,
                test_name: Paint::Plain,
                modules: Paint::Plain,
                field: Paint::Plain,
            }),
    {
        Styles::plain()
    }
}

/// `text` with `indent` put before each line that is not empty. A line ends
/// with a line feed; `at_line_start` says whether `text` begins a line.
pub open spec fn indented(indent: Seq<char>, text: Seq<char>, at_line_start: bool) -> Seq<char>
    decreases text.len(),
{
    if text.len() == 0 {
        Seq::<char>::empty()
    } else if text[0] == '\n' {
        seq!['\n'] + indented(indent, text.drop_first(), true)
    } else if at_line_start {
        indent + seq![text[0]] + indented(indent, text.drop_first(), false)
    } else {
        seq![text[0]] + indented(indent, text.drop_first(), false)
    }
}

/// `indent_write::io::IndentWriter`, on text that is already in memory: the
/// writer puts the indent before each line that is not empty, that is,
/// between a line feed and a character behind it that is none, and before
/// the first character if that is no line feed.
#[verifier::external_body]
fn indent_lines(indent: &str, text: &str) -> (out: String)
    ensures
        out@ == indented(indent@, text@, true),
{
    let mut writer = IndentWriter::new(indent, Vec::new());
    writer.write_all(text.as_bytes()).unwrap();
    String::from_utf8(writer.into_inner()).unwrap()
}

/// The position at which the last `::` of `name` begins, or `-1` where
/// `name` holds none.
pub open spec fn last_separator(name: Seq<char>) -> int
    decreases name.len(),
{
    if name.len() < 2 {
        -1
    } else if name[name.len() - 2] == ':' && name[name.len() - 1] == ':' {
        name.len() - 2
    } else {
        last_separator(name.drop_last())
    }
}

/// The name of a test as a listing shows it: the modules it lies in and the
/// `::` behind them in the look of modules, what follows the last `::` in
/// the look of test names.
pub open spec fn test_name_text(name: Seq<char>, styles: Styles) -> Seq<char> {
    let at = last_separator(name);
    if at >= 0 {
        painted(styles.modules, name.take(at)) + painted(styles.modules, "::"@) + painted(
            styles.test_name,
            name.skip(at + 2),
        )
    } else {
        painted(styles.test_name, name)
    }
}

/// The lines that a listing has for one binary of a list of binaries.
pub open spec fn binary_text(bin: RustTestBinaryView, verbose: bool, styles: Styles) -> Seq<char> {
    if verbose {
        painted(styles.binary_id, bin.id) + ":\n"@ + "  "@ + painted(styles.field, "bin:"@) + " "@
            + bin.path + "\n"@ + "  "@ + painted(styles.field, "build platform:"@) + " "@
            + platform_text(bin.build_platform) + "\n"@
    } else {
        painted(styles.binary_id, bin.id) + "\n"@
    }
}

/// The listing of a list of binaries.
pub open spec fn binary_list_text(
    bins: Seq<RustTestBinaryView>,
    verbose: bool,
    styles: Styles,
) -> Seq<char>
    decreases bins.len(),
{
    if bins.len() == 0 {
        Seq::<char>::empty()
    } else {
        binary_list_text(bins.drop_last(), verbose, styles) + binary_text(
            bins.last(),
            verbose,
            styles,
        )
    }
}

/// The line of one test, before it is indented: its name, and `(skipped)`
/// behind it where the filter did not match.
pub open spec fn case_text(
    name: Seq<char>,
    case: RustTestCaseSummary,
    styles: Styles,
) -> Seq<char> {
    test_name_text(name, styles) + (if case.filter_match is Matches {
        Seq::<char>::empty()
    } else {
        " (skipped)"@
    }) + "\n"@
}

/// The lines of the tests `cases`, before they are indented.
pub open spec fn cases_text(cases: Entries<RustTestCaseSummary>, styles: Styles) -> Seq<char>
    decreases cases.len(),
{
    if cases.len() == 0 {
        Seq::<char>::empty()
    } else {
        cases_text(cases.drop_last(), styles) + case_text(cases.last().0, cases.last().1, styles)
    }
}

/// What a listing shows below the head of a suite, before it is indented:
/// the lines of its tests, or a line that says that it has none.
pub open spec fn suite_body(cases: Entries<RustTestCaseSummary>, styles: Styles) -> Seq<char> {
    if cases.len() == 0 {
        "(no tests)\n"@
    } else {
        cases_text(cases, styles)
    }
}

/// The head of a suite in a listing: the identifier of the binary, and with
/// `verbose` the binary's path, its working directory and its platform.
pub open spec fn suite_head(
    path: Seq<char>,
    suite: RustTestSuite,
    verbose: bool,
    styles: Styles,
) -> Seq<char> {
    if verbose {
        painted(styles.binary_id, suite.binary_id@) + ":\n"@ + "  "@ + painted(
            styles.field,
            "bin:"@,
        ) + " "@ + path + "\n"@ + "  "@ + painted(styles.field, "cwd:"@) + " "@ + suite.cwd@
            + "\n"@ + "  "@ + painted(styles.field, "build platform:"@) + " "@ + platform_text(
            suite.build_platform,
        ) + "\n"@
    } else {
        painted(styles.binary_id, suite.binary_id@) + ":\n"@
    }
}

/// What a listing shows of one suite: its head, and below it, indented by
/// four spaces, its tests.
pub open spec fn suite_text(
    path: Seq<char>,
    suite: RustTestSuite,
    verbose: bool,
    styles: Styles,
) -> Seq<char> {
    suite_head(path, suite, verbose, styles) + indented(
        "    "@,
        suite_body(suite.testcases@, styles),
        true,
    )
}

/// The listing of a list of tests.
pub open spec fn test_list_text(
    suites: Entries<RustTestSuite>,
    verbose: bool,
    styles: Styles,
) -> Seq<char>
    decreases suites.len(),
{
    if suites.len() == 0 {
        Seq::<char>::empty()
    } else {
        test_list_text(suites.drop_last(), verbose, styles) + suite_text(
            suites.last().0,
            suites.last().1,
            verbose,
            styles,
        )
    }
}

/// Appends a line made of two spaces, the name of a field, a space and the
/// field's value.
fn push_field(out: &mut String, field: &str, value: &str, styles: &Styles)
    ensures
        final(out)@ == old(out)@ + "  "@ + painted(styles.field, field@) + " "@ + value@ + "\n"@,
{
    out.append("  ");
    out.append(paint(styles.field, field).as_str());
    out.append(" ");
    out.append(value);
    out.append("\n");
}

/// The name of a test as a listing shows it. See [`test_name_text`].
pub fn write_test_name(name: &str, styles: &Styles) -> (out: String)
    ensures
        out@ == test_name_text(name@, *styles),
{
    let chars = to_chars(name);
    // Look for the last `::`.
    let mut end: usize = chars.len();
    assert(chars@.take(end as int) == chars@);
    while end >= 2 && !(chars[end - 2] == ':' && chars[end - 1] == ':')
        invariant
            end <= chars.len(),
            last_separator(chars@) == last_separator(chars@.take(end as int)),
        decreases end,
    {
        proof {
            assert(chars@.take(end as int).drop_last() == chars@.take(end - 1));
        }
        end = end - 1;
    }
    if end >= 2 {
        let at: usize = end - 2;
        let modules = from_chars(&chars, 0, at);
        let last = from_chars(&chars, end, chars.len());
        proof {
            let front = chars@.take(end as int);
            assert(front[end - 2] == ':' && front[end - 1] == ':');
            assert(last_separator(front) == at);
            assert(chars@.subrange(0, at as int) =~= name@.take(at as int));
            assert(chars@.subrange(end as int, chars.len() as int) =~= name@.skip(at + 2));
        }
        let mut out = paint(styles.modules, modules.as_str());
        out.append(paint(styles.modules, "::").as_str());
        out.append(paint(styles.test_name, last.as_str()).as_str());
        out
    } else {
        paint(styles.test_name, name)
    }
}

/// The lines of the tests `cases`, before they are indented.
fn write_cases(
    cases: &NameMap<RustTestCaseSummary>,
    styles: &Styles,
) -> (out: String)
    ensures
        out@ == cases_text(cases@, *styles),
{
    let mut out = String::new();
    let mut i: usize = 0;
    assert(cases@.take(0) =~= Seq::<(Seq<char>, RustTestCaseSummary)>::empty());
    while i < cases.len()
        invariant
            i <= cases@.len(),
            out@ == cases_text(cases@.take(i as int), *styles),
        decreases cases@.len() - i,
    {
        proof {
            assert(cases@.take(i + 1).drop_last() == cases@.take(i as int));
            assert(cases@.take(i + 1).last() == cases@[i as int]);
        }
        let ghost before = out@;
        out.append(write_test_name(cases.key_at(i).as_str(), styles).as_str());
        if !cases.value_at(i).filter_match.is_match() {
            out.append(" (skipped)");
        }
        out.append("\n");
        assert(out@ =~= before + case_text(cases@[i as int].0, cases@[i as int].1, *styles));
        i = i + 1;
    }
    proof {
        assert(cases@.take(cases@.len() as int) == cases@);
    }
    out
}

/// The lines that a listing has for one binary. See [`binary_text`].
fn write_binary(bin: &RustTestBinary, verbose: bool, styles: &Styles) -> (out: String)
    ensures
        out@ == binary_text(bin@, verbose, *styles),
{
    let mut out = paint(styles.binary_id, bin.id.as_str());
    if verbose {
        out.append(":\n");
        push_field(&mut out, "bin:", bin.path.as_str(), styles);
        push_field(&mut out, "build platform:", bin.build_platform.as_str(), styles);
    } else {
        out.append("\n");
    }
    assert(out@ =~= binary_text(bin@, verbose, *styles));
    out
}

impl BinaryList {
    /// The listing of this list: one line for each binary, with its
    /// identifier; with `verbose`, the identifier and below it the binary's
    /// path and its platform.
    pub fn write_human(&self, verbose: bool, styles: &Styles) -> (out: String)
        ensures
            out@ == binary_list_text(views(self.rust_binaries@), verbose, *styles),
    {
        let mut out = String::new();
        let ghost all = views(self.rust_binaries@);
        let mut i: usize = 0;
        assert(all.take(0) =~= Seq::<RustTestBinaryView>::empty());
        while i < self.rust_binaries.len()
            invariant
                i <= self.rust_binaries@.len(),
                all == views(self.rust_binaries@),
                out@ == binary_list_text(all.take(i as int), verbose, *styles),
            decreases self.rust_binaries@.len() - i,
        {
            let bin = &self.rust_binaries[i];
            proof {
                assert(all.take(i + 1).drop_last() == all.take(i as int));
                assert(all.take(i + 1).last() == bin@);
            }
            out.append(write_binary(bin, verbose, styles).as_str());
            i = i + 1;
        }
        proof {
            assert(all.take(all.len() as int) == all);
        }
        out
    }
}

/// The head of a suite in a listing. See [`suite_head`].
fn write_suite_head(test_bin: &str, info: &RustTestSuite, verbose: bool, styles: &Styles) -> (out:
    String)
    ensures
        out@ == suite_head(test_bin@, *info, verbose, *styles),
{
    let mut out = paint(styles.binary_id, info.binary_id.as_str());
    out.append(":\n");
    if verbose {
        push_field(&mut out, "bin:", test_bin, styles);
        push_field(&mut out, "cwd:", info.cwd.as_str(), styles);
        push_field(&mut out, "build platform:", info.build_platform.as_str(), styles);
    }
    assert(out@ =~= suite_head(test_bin@, *info, verbose, *styles));
    out
}

/// What a listing shows of one suite. See [`suite_text`].
fn write_suite(
    test_bin: &str,
    info: &RustTestSuite,
    verbose: bool,
    styles: &Styles,
) -> (out: String)
    ensures
        out@ == suite_text(test_bin@, *info, verbose, *styles),
{
    let mut out = write_suite_head(test_bin, info, verbose, styles);
    let body = if info.testcases.is_empty() {
        "(no tests)\n".to_string()
    } else {
        write_cases(&info.testcases, styles)
    };
    out.append(indent_lines("    ", body.as_str()).as_str());
    out
}

impl TestList {
    /// The listing of this list: for each binary its identifier, and below
    /// it, indented, the names of its tests, each followed by `(skipped)`
    /// where the filter did not match. With `verbose`, the binary's path, its
    /// working directory and its platform stand below the identifier.
    pub fn write_human(&self, verbose: bool, styles: &Styles) -> (out: String)
        ensures
            out@ == test_list_text(self@, verbose, *styles),
    {
        let mut out = String::new();
        let pairs = self.iter();
        let ghost all = self@;
        let mut i: usize = 0;
        assert(all.take(0) =~= Seq::<(Seq<char>, RustTestSuite)>::empty());
        while i < pairs.len()
            invariant
                i <= pairs@.len(),
                pairs@.len() == all.len(),
                forall|k: int|
                    0 <= k < pairs@.len() ==> (#[trigger] pairs@[k]).0@ == all[k].0 && *pairs@[k].1
                        == all[k].1,
                out@ == test_list_text(all.take(i as int), verbose, *styles),
            decreases pairs@.len() - i,
        {
            let (test_bin, info) = pairs[i];
            proof {
                assert(all.take(i + 1).drop_last() == all.take(i as int));
                assert(all.take(i + 1).last() == all[i as int]);
            }
            out.append(write_suite(test_bin, info, verbose, styles).as_str());
            i = i + 1;
        }
        proof {
            assert(all.take(all.len() as int) == all);
        }
        out
    }
}

} // verus!
