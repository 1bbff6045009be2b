//! The format in which a test binary lists its tests: one line for each,
//! the name followed by `: test`. Lines that end in `: benchmark` stand for
//! benchmarks and are passed over.

use crate::errors::{ParseTestListError, ParseTestListErrorView};
use crate::sort::{lemma_stable_sort_views, sort_by_key, stable_sort, views};
use crate::text::{from_chars, texts, to_chars};
use vstd::prelude::*;

verus! {

/// The position of the first line feed in `s`, or the length of `s` where it
/// holds none.
pub open spec fn first_newline(s: Seq<char>) -> int
    decreases s.len(),
{
    if s.len() == 0 {
        0
    } else if s[0] == '\n' {
        0
    } else {
        1 + first_newline(s.drop_first())
    }
}

/// `line` without the carriage return at its end, if it has one.
pub open spec fn without_cr(line: Seq<char>) -> Seq<char> {
    if line.len() > 0 && line.last() == '\r' {
        line.drop_last()
    } else {
        line
    }
}

/// The lines of `s`. A line ends with a line feed, or with a carriage return
/// and a line feed, neither of which belongs to it. The last line needs no
/// line ending, and no empty line follows a final line ending.
pub open spec fn lines(s: Seq<char>) -> Seq<Seq<char>>
    decreases s.len(),
{
    if s.len() == 0 {
        Seq::<Seq<char>>::empty()
    } else {
        let n = first_newline(s);
        if n < 0 || n >= s.len() {
            seq![s]
        } else {
            seq![without_cr(s.take(n))] + lines(s.skip(n + 1))
        }
    }
}

/// Whether `line` ends with `suffix`.
pub open spec fn ends_with(line: Seq<char>, suffix: Seq<char>) -> bool {
    line.len() >= suffix.len() && line.skip(line.len() - suffix.len()) == suffix
}

/// `line` without its last `n` characters.
pub open spec fn without_last(line: Seq<char>, n: nat) -> Seq<char> {
    line.take(line.len() - n)
}

/// What `tail` gave, behind the names `head`.
pub open spec fn after(head: Seq<Seq<char>>, tail: Result<Seq<Seq<char>>, Seq<char>>) -> Result<
    Seq<Seq<char>>,
    Seq<char>,
> {
    match tail {
        Ok(names) => Ok(head + names),
        Err(line) => Err(line),
    }
}

/// The names of the tests that `lines` list, in order, or the first line
/// that is neither the line of a test nor that of a benchmark.
pub open spec fn listed_names(lines: Seq<Seq<char>>) -> Result<Seq<Seq<char>>, Seq<char>>
    decreases lines.len(),
{
    if lines.len() == 0 {
        Ok(Seq::<Seq<char>>::empty())
    } else if ends_with(lines[0], ": benchmark"@) {
        listed_names(lines.drop_first())
    } else if ends_with(lines[0], ": test"@) {
        after(seq![without_last(lines[0], ": test"@.len())], listed_names(lines.drop_first()))
    } else {
        Err(lines[0])
    }
}

/// The words that say what is wrong with `line`.
pub open spec fn bad_line_message(line: Seq<char>) -> Seq<char> {
    "line '"@ + line + "' did not end with the string ': test' or ': benchmark'"@
}

/// What parsing the output `list_output` of a test binary gives: the names of
/// the tests, sorted, or the error of the first line that is no line of a
/// test list.
pub open spec fn parsed_names(
    list_output: Seq<char>,
) -> Result<Seq<Seq<char>>, ParseTestListErrorView> {
    match listed_names(lines(list_output)) {
        Ok(names) => Ok(stable_sort(names)),
        Err(line) => Err(
            ParseTestListErrorView::ParseLine {
                message: bad_line_message(line),
                full_output: list_output,
            },
        ),
    }
}

/// `first_newline` is the first position that holds a line feed.
pub proof fn lemma_first_newline(s: Seq<char>, n: int)
    requires
        0 <= n <= s.len(),
        forall|i: int| 0 <= i < n ==> s[i] != '\n',
        n < s.len() ==> s[n] == '\n',
    ensures
        first_newline(s) == n,
    decreases s.len(),
{
    if s.len() > 0 && n > 0 {
        let rest = s.drop_first();
        assert forall|i: int| 0 <= i < n - 1 implies rest[i] != '\n' by {
            assert(rest[i] == s[i + 1]);
        }
        lemma_first_newline(rest, n - 1);
    }
}

/// Whether `chars[start..end]` ends with `suffix`.
fn range_ends_with(chars: &Vec<char>, start: usize, end: usize, suffix: &Vec<char>) -> (r: bool)
    requires
        start <= end <= chars.len(),
    ensures
        r == ends_with(chars@.subrange(start as int, end as int), suffix@),
{
    let n = suffix.len();
    if end - start < n {
        return false;
    }
    let ghost line = chars@.subrange(start as int, end as int);
    let mut i: usize = 0;
    while i < n
        invariant
            i <= n,
            n == suffix.len(),
            start <= end <= chars.len(),
            end - start >= n,
            line == chars@.subrange(start as int, end as int),
            forall|j: int| 0 <= j < i ==> line.skip(line.len() - n)[j] == suffix@[j],
        decreases n - i,
    {
        if chars[end - n + i] != suffix[i] {
            assert(line.skip(line.len() - n)[i as int] == chars@[end - n + i]);
            return false;
        }
        assert(line.skip(line.len() - n)[i as int] == chars@[end - n + i]);
        i = i + 1;
    }
    assert(line.skip(line.len() - n) =~= suffix@);
    true
}

/// The names of the tests that `list_output` lists, in the order of the
/// lines, or the error of the first line that is no line of a test list.
pub fn parse_impl(list_output: &str) -> (names: Result<Vec<String>, ParseTestListError>)
    ensures
        match names {
            Ok(names) => listed_names(lines(list_output@)) == Ok::<Seq<Seq<char>>, Seq<char>>(
                texts(names@),
            ),
            Err(e) => listed_names(lines(list_output@)) is Err && e@ == (
            ParseTestListErrorView::ParseLine {
                message: bad_line_message(listed_names(lines(list_output@))->Err_0),
                full_output: list_output@,
            }),
        },
{
    let chars = to_chars(list_output);
    let benchmark = to_chars(": benchmark");
    let test = to_chars(": test");
    let ghost all = chars@;
    let mut names: Vec<String> = Vec::new();
    let mut pos: usize = 0;
    assert(all.skip(0) == all);
    assert(texts(names@) =~= Seq::<Seq<char>>::empty());
    while pos < chars.len()
        invariant
            pos <= chars.len(),
            all == chars@,
            all == list_output@,
            benchmark@ == ": benchmark"@,
            test@ == ": test"@,
            listed_names(lines(all)) == after(
                texts(names@),
                listed_names(lines(all.skip(pos as int))),
            ),
        decreases chars.len() - pos,
    {
        let ghost rest = all.skip(pos as int);
        // The line runs up to the next line feed, or to the end.
        let mut end: usize = pos;
        while end < chars.len() && chars[end] != '\n'
            invariant
                pos <= end <= chars.len(),
                forall|i: int| pos <= i < end ==> chars@[i] != '\n',
            decreases chars.len() - end,
        {
            end = end + 1;
        }
        proof {
            assert forall|i: int| 0 <= i < end - pos implies rest[i] != '\n' by {
                assert(rest[i] == all[pos + i]);
            }
            lemma_first_newline(rest, end - pos);
        }
        let next: usize = if end < chars.len() {
            end + 1
        } else {
            end
        };
        let line_end: usize = if end < chars.len() && end > pos && chars[end - 1] == '\r' {
            end - 1
        } else {
            end
        };
        let ghost line = all.subrange(pos as int, line_end as int);
        proof {
            if end < chars.len() {
                assert(rest.take(end - pos) =~= all.subrange(pos as int, end as int));
                assert(without_cr(rest.take(end - pos)) =~= line);
                assert(rest.skip(end - pos + 1) =~= all.skip(next as int));
            } else {
                assert(rest =~= line);
                assert(all.skip(next as int).len() == 0);
            }
            let tail = lines(all.skip(next as int));
            assert(lines(rest) =~= seq![line] + tail);
            assert((seq![line] + tail).drop_first() =~= tail);
            assert((seq![line] + tail)[0] == line);
        }
        if range_ends_with(&chars, pos, line_end, &benchmark) {
            // A benchmark, written by the benchmark harness. Not a test.
        } else if range_ends_with(&chars, pos, line_end, &test) {
            let name = from_chars(&chars, pos, line_end - test.len());
            let ghost before = texts(names@);
            proof {
                assert(name@ =~= without_last(line, ": test"@.len()));
            }
            names.push(name);
            proof {
                assert(texts(names@) =~= before + seq![name@]);
                let tail = listed_names(lines(all.skip(next as int)));
                match tail {
                    Ok(more) => {
                        assert(before + (seq![name@] + more) =~= (before + seq![name@]) + more);
                    },
                    Err(_) => {},
                }
            }
        } else {
            let mut message = "line '".to_string();
            let text = from_chars(&chars, pos, line_end);
            message.append(text.as_str());
            message.append("' did not end with the string ': test' or ': benchmark'");
            assert(text@ == line);
            return Err(ParseTestListError::parse_line(message, list_output));
        }
        pos = next;
    }
    proof {
        assert(all.skip(pos as int).len() == 0);
        assert(texts(names@) + Seq::<Seq<char>>::empty() =~= texts(names@));
    }
    Ok(names)
}

/// The names of the tests that `list_output` lists, sorted, or the error of
/// the first line that is no line of a test list.
///
/// Each line of `list_output` must end in `: test`, and what stands before
/// that is the name of a test; a line that ends in `: benchmark` is passed
/// over. A name that is listed twice is returned twice.
pub fn parse(list_output: &str) -> (names: Result<Vec<String>, ParseTestListError>)
    ensures
        match names {
            Ok(names) => parsed_names(list_output@) == Ok::<
                Seq<Seq<char>>,
                ParseTestListErrorView,
            >(texts(names@)),
            Err(e) => parsed_names(list_output@) == Err::<
                Seq<Seq<char>>,
                ParseTestListErrorView,
            >(e@),
        },
{
    match parse_impl(list_output) {
        Ok(names) => {
            proof {
                lemma_stable_sort_views(names@);
                assert(views(names@) =~= texts(names@));
            }
            let sorted = sort_by_key(names);
            assert(views(sorted@) =~= texts(sorted@));
            Ok(sorted)
        },
        Err(e) => Err(e),
    }
}

} // verus!
