//! How deep the brackets of a stream of JSON lines are nested.
//!
//! A reader that follows the brackets of a line by recursion needs stack for
//! each level. The depth is measured here before anything is read, so that a
//! line that asks for too much can be turned away.

use vstd::prelude::*;

verus! {

/// The deepest nesting that a line of a message stream may have: the depth to
/// which `serde_json` reads where its own limit is left on.
pub const MAX_NESTING: usize = 128;

/// What is known after a part of a stream has been looked at.
pub struct Scan {
    /// The number of brackets that are open in the current line.
    pub depth: nat,
    /// Whether the part ends inside a string.
    pub in_string: bool,
    /// Whether the part ends behind a backslash that escapes what follows.
    pub escaped: bool,
    /// The largest number of brackets that were open at one time in one line.
    pub deepest: nat,
}

/// What is known before anything has been looked at.
pub open spec fn scan_start() -> Scan {
    Scan { depth: 0, in_string: false, escaped: false, deepest: 0 }
}

/// What is known after one more byte. A line feed begins a new line. Inside
/// a string, which runs from one quotation mark to the next one that no
/// backslash escapes, brackets do not count. Outside of strings `[` and `{`
/// open a level, and `]` and `}` close one.
pub open spec fn scan_step(s: Scan, byte: u8) -> Scan {
    if byte == 10 {
        Scan { depth: 0, in_string: false, escaped: false, deepest: s.deepest }
    } else if s.in_string {
        if s.escaped {
            Scan { escaped: false, ..s }
        } else if byte == 92 {
            Scan { escaped: true, ..s }
        } else if byte == 34 {
            Scan { in_string: false, ..s }
        } else {
            s
        }
    } else if byte == 34 {
        Scan { in_string: true, ..s }
    } else if byte == 91 || byte == 123 {
        Scan {
            depth: s.depth + 1,
            deepest: if s.depth + 1 > s.deepest {
                s.depth + 1
            } else {
                s.deepest
            },
            ..s
        }
    } else if byte == 93 || byte == 125 {
        Scan {
            depth: if s.depth > 0 {
                (s.depth - 1) as nat
            } else {
                0
            },
            ..s
        }
    } else {
        s
    }
}

/// What is known after all of `input`.
pub open spec fn scan(input: Seq<u8>) -> Scan
    decreases input.len(),
{
    if input.len() == 0 {
        scan_start()
    } else {
        scan_step(scan(input.drop_last()), input.last())
    }
}

/// The largest number of brackets that are open at one time in one line of
/// `input`, strings left aside.
pub open spec fn deepest_nesting(input: Seq<u8>) -> nat {
    scan(input).deepest
}

/// No more brackets are open than bytes were read.
pub proof fn lemma_scan_bounds(input: Seq<u8>)
    ensures
        scan(input).depth <= input.len(),
        scan(input).deepest <= input.len(),
        scan(input).depth <= scan(input).deepest,
    decreases input.len(),
{
    if input.len() > 0 {
        lemma_scan_bounds(input.drop_last());
    }
}

/// A longer stream is nested at least as deep.
pub proof fn lemma_deepest_nesting_grows(input: Seq<u8>, n: int)
    requires
        0 <= n <= input.len(),
    ensures
        deepest_nesting(input.take(n)) <= deepest_nesting(input),
    decreases input.len() - n,
{
    if n < input.len() {
        assert(input.take(n + 1).drop_last() == input.take(n));
        lemma_deepest_nesting_grows(input, n + 1);
    } else {
        assert(input.take(n) == input);
    }
}

/// Measures the nesting of `input`. See [`deepest_nesting`].
pub fn nesting_depth(input: &[u8]) -> (deepest: usize)
    ensures
        deepest == deepest_nesting(input@),
{
    let mut depth: usize = 0;
    let mut in_string: bool = false;
    let mut escaped: bool = false;
    let mut deepest: usize = 0;
    let mut i: usize = 0;
    assert(input@.take(0) =~= Seq::<u8>::empty());
    while i < input.len()
        invariant
            i <= input@.len(),
            scan(input@.take(i as int)) == (Scan {
                depth: depth as nat,
                in_string,
                escaped,
                deepest: deepest as nat,
            }),
        decreases input@.len() - i,
    {
        proof {
            assert(input@.take(i + 1).drop_last() == input@.take(i as int));
            assert(input@.take(i + 1).last() == input@[i as int]);
            lemma_scan_bounds(input@.take(i as int));
        }
        let byte = input[i];
        if byte == 10 {
            depth = 0;
            in_string = false;
            escaped = false;
        } else if in_string {
            if escaped {
                escaped = false;
            } else if byte == 92 {
                escaped = true;
            } else if byte == 34 {
                in_string = false;
            }
        } else if byte == 34 {
            in_string = true;
        } else if byte == 91 || byte == 123 {
            depth = depth + 1;
            if depth > deepest {
                deepest = depth;
            }
        } else if byte == 93 || byte == 125 {
            if depth > 0 {
                depth = depth - 1;
            }
        }
        i = i + 1;
    }
    proof {
        assert(input@.take(input@.len() as int) == input@);
    }
    deepest
}

/// Whether the line that begins at `from` is nested deeper than
/// `MAX_NESTING` before the position `upto`, which lies in that line or just
/// behind it.
pub open spec fn too_deep_before(input: Seq<u8>, from: int, upto: int) -> bool {
    &&& from < upto <= input.len()
    &&& forall|k: int| from <= k < upto - 1 ==> input[k] != 10
    &&& deepest_nesting(input.take(upto)) > MAX_NESTING
}

/// Whether the first `len` bytes of `input` are the lines at its front that
/// can be read: all of `input` where none of its lines is nested deeper than
/// `MAX_NESTING`, else the whole lines before the first one that is.
pub open spec fn is_readable_len(input: Seq<u8>, len: int) -> bool {
    &&& 0 <= len <= input.len()
    &&& deepest_nesting(input.take(len)) <= MAX_NESTING
    &&& len == 0 || len == input.len() || input[len - 1] == 10
    &&& len < input.len() ==> exists|upto: int| too_deep_before(input, len, upto)
}

/// The length of the lines at the front of `input` that can be read.
pub open spec fn readable_len_of(input: Seq<u8>) -> int {
    choose|len: int| is_readable_len(input, len)
}

/// There is one such length only.
pub proof fn lemma_readable_len_unique(input: Seq<u8>, a: int, b: int)
    requires
        is_readable_len(input, a),
        is_readable_len(input, b),
    ensures
        a == b,
{
    lemma_readable_len_not_above(input, a, b);
    lemma_readable_len_not_above(input, b, a);
}

/// Of two such lengths the second is not above the first.
proof fn lemma_readable_len_not_above(input: Seq<u8>, a: int, b: int)
    requires
        is_readable_len(input, a),
        is_readable_len(input, b),
    ensures
        b <= a,
{
    if a < b {
        let upto = choose|upto: int| too_deep_before(input, a, upto);
        if upto <= b {
            // What is too deep before `upto` is too deep before `b`.
            lemma_deepest_nesting_grows(input.take(b), upto);
            assert(input.take(b).take(upto) == input.take(upto));
        } else {
            // `b` lies within the line that begins at `a`, so no line ends there.
            assert(input[b - 1] != 10);
        }
    }
}

/// The length of the lines at the front of `input` that can be read: all of
/// `input` where none of its lines is nested deeper than `MAX_NESTING`, else
/// the whole lines before the first one that is.
pub fn readable_len(input: &[u8]) -> (len: usize)
    ensures
        len == readable_len_of(input@),
        is_readable_len(input@, len as int),
        len == input@.len() <==> deepest_nesting(input@) <= MAX_NESTING,
{
    let mut depth: usize = 0;
    let mut in_string: bool = false;
    let mut escaped: bool = false;
    let mut line_start: usize = 0;
    let mut i: usize = 0;
    let ghost mut deepest: nat = 0;
    assert(input@.take(0) =~= Seq::<u8>::empty());
    while i < input.len()
        invariant
            i <= input@.len(),
            line_start <= i,
            line_start == 0 || input@[line_start - 1] == 10,
            forall|k: int| line_start <= k < i ==> input@[k] != 10,
            deepest <= MAX_NESTING,
            scan(input@.take(i as int)) == (Scan {
                depth: depth as nat,
                in_string,
                escaped,
                deepest,
            }),
        decreases input@.len() - i,
    {
        proof {
            assert(input@.take(i + 1).drop_last() == input@.take(i as int));
            assert(input@.take(i + 1).last() == input@[i as int]);
            lemma_scan_bounds(input@.take(i as int));
        }
        let byte = input[i];
        if byte == 10 {
            depth = 0;
            in_string = false;
            escaped = false;
            line_start = i + 1;
        } else if in_string {
            if escaped {
                escaped = false;
            } else if byte == 92 {
                escaped = true;
            } else if byte == 34 {
                in_string = false;
            }
        } else if byte == 34 {
            in_string = true;
        } else if byte == 91 || byte == 123 {
            if depth >= MAX_NESTING {
                proof {
                    assert(too_deep_before(input@, line_start as int, i + 1));
                    lemma_deepest_nesting_grows(input@.take(i as int), line_start as int);
                    assert(input@.take(i as int).take(line_start as int) == input@.take(
                        line_start as int,
                    ));
                    lemma_deepest_nesting_grows(input@, i + 1);
                    assert(is_readable_len(input@, line_start as int));
                    lemma_readable_len_unique(
                        input@,
                        line_start as int,
                        readable_len_of(input@),
                    );
                }
                return line_start;
            }
            depth = depth + 1;
            proof {
                if depth > deepest {
                    deepest = depth as nat;
                }
            }
        } else if byte == 93 || byte == 125 {
            if depth > 0 {
                depth = depth - 1;
            }
        }
        i = i + 1;
    }
    proof {
        assert(input@.take(input@.len() as int) == input@);
        assert(is_readable_len(input@, i as int));
        lemma_readable_len_unique(input@, i as int, readable_len_of(input@));
    }
    i
}

/// Whether no line of `input` is nested deeper than `MAX_NESTING`.
pub fn nesting_is_bounded(input: &[u8]) -> (bounded: bool)
    ensures
        bounded == (deepest_nesting(input@) <= MAX_NESTING),
{
    nesting_depth(input) <= MAX_NESTING
}

} // verus!
