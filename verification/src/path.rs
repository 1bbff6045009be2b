//! Paths, held as UTF-8 text and handled by `camino`.
//!
//! The library keeps every path as a `String`. What a path operation yields
//! is decided by `camino`, and through it by the standard library's `Path`
//! and the path rules of the platform that the library is built for. So the
//! results are named here, and the operations are thin calls whose contracts
//! are taken on trust.

use crate::order::lex_lt;
use crate::text::opt_text;
use camino::Utf8Path;
use vstd::prelude::*;

verus! {

/// The key by which `camino` orders a path: its components, as
/// `Utf8Path::components` yields them, each written out as integers, so that
/// two paths compare as their keys do lexicographically. Two spellings of a
/// path that have the same components have the same key.
pub uninterp spec fn path_key(path: Seq<char>) -> Seq<int>;

/// What `Utf8Path::strip_prefix` leaves of `path` once `base` is taken off its
/// front, or `None` where `base` is no prefix of `path`.
pub uninterp spec fn path_without_prefix(path: Seq<char>, base: Seq<char>) -> Option<Seq<char>>;

/// `path` adjoined to `base`, as `Utf8Path::join` does it.
pub uninterp spec fn path_joined(base: Seq<char>, path: Seq<char>) -> Seq<char>;

/// The final component of `path`, as `Utf8Path::file_name` gives it.
pub uninterp spec fn path_file_name(path: Seq<char>) -> Option<Seq<char>>;

/// `<` on `Utf8Path`: camino compares the component sequences of the two
/// paths, so the order is the lexicographic one on their keys.
#[verifier::external_body]
pub(crate) fn path_lt(a: &str, b: &str) -> (r: bool)
    ensures
        r == lex_lt(path_key(a@), path_key(b@)),
{
    Utf8Path::new(a) < Utf8Path::new(b)
}

/// `Utf8Path::strip_prefix`: the rest of `path` behind `base`, where `base`
/// is made of leading components of `path`.
#[verifier::external_body]
pub(crate) fn strip_prefix(path: &str, base: &str) -> (rest: Option<String>)
    ensures
        opt_text(rest) == path_without_prefix(path@, base@),
{
    Utf8Path::new(path).strip_prefix(base).ok().map(|p| p.as_str().to_owned())
}

/// `Utf8Path::join`: `base` with `path` adjoined.
#[verifier::external_body]
pub(crate) fn join(base: &str, path: &str) -> (joined: String)
    ensures
        joined@ == path_joined(base@, path@),
{
    Utf8Path::new(base).join(path).into_string()
}

/// `Utf8Path::file_name`: the final component of `path`, if it has one.
#[verifier::external_body]
pub(crate) fn file_name(path: &str) -> (name: Option<String>)
    ensures
        opt_text(name) == path_file_name(path@),
{
    Utf8Path::new(path).file_name().map(|f| f.to_owned())
}

} // verus!
