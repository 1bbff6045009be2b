//! Invocation plans: everything needed to start one process.

use crate::package::{PackageInfo, PackageInfoView};
use crate::path::{join, path_joined};
use crate::runner::PlatformRunner;
use crate::text::{clone_or_empty, decimal, or_empty, texts, u64_to_decimal};
use vstd::prelude::*;

verus! {

/// A fully resolved invocation: the program, its arguments, the directory it
/// runs in and the variables added to its environment.
#[derive(Clone, Debug, PartialEq, Eq)]
pub struct TestCommand {
    /// The program to start.
    pub program: String,
    /// Its arguments, in order.
    pub args: Vec<String>,
    /// The working directory.
    pub cwd: String,
    /// The environment variables to set, as pairs of name and value, in the
    /// order in which they are set.
    pub env: Vec<(String, String)>,
}

/// The model of a `TestCommand`.
pub struct TestCommandView {
    /// The program to start.
    pub program: Seq<char>,
    /// Its arguments, in order.
    pub args: Seq<Seq<char>>,
    /// The working directory.
    pub cwd: Seq<char>,
    /// The environment variables to set.
    pub env: Seq<(Seq<char>, Seq<char>)>,
}


/// The texts of a sequence of pairs of strings.
pub open spec fn text_pairs(pairs: Seq<(String, String)>) -> Seq<(Seq<char>, Seq<char>)> {
    Seq::new(pairs.len(), |i: int| (pairs[i].0@, pairs[i].1@))
}

impl View for TestCommand {
    type V = TestCommandView;

    open spec fn view(&self) -> TestCommandView {
        TestCommandView {
            program: self.program@,
            args: texts(self.args@),
            cwd: self.cwd@,
            env: text_pairs(self.env@),
        }
    }
}

/// Whether `path` begins at the root of the file system.
pub open spec fn begins_at_root(path: Seq<char>) -> bool {
    path.len() > 0 && path[0] == '/'
}

/// The path by which the binary at `path` is started: `path` itself where it
/// begins at the root; else `path` adjoined to `.`, so that a bare file name
/// is taken from the working directory and not searched for.
pub open spec fn started_path(path: Seq<char>) -> Seq<char> {
    if begins_at_root(path) {
        path
    } else {
        path_joined("."@, path)
    }
}

/// The program that is started for the binary at `binary_path`: the runner
/// wrapper where there is one, else the binary itself.
pub open spec fn command_program(runner: Option<PlatformRunner>, binary_path: Seq<char>) -> Seq<
    char,
> {
    match runner {
        Some(r) => r.runner_binary@,
        None => started_path(binary_path),
    }
}

/// The command line of the program `program` with the arguments `args`, as
/// it is quoted in messages: the program and its arguments with a space
/// between each two, in single quotes.
pub open spec fn command_line(program: Seq<char>, args: Seq<Seq<char>>) -> Seq<char> {
    "'"@ + joined(seq![program] + args, " "@) + "'"@
}

/// The arguments that stand before the binary's own: with a runner wrapper,
/// the wrapper's fixed arguments and then the binary's path; else none.
pub open spec fn command_prefix(runner: Option<PlatformRunner>, binary_path: Seq<char>) -> Seq<
    Seq<char>,
> {
    match runner {
        Some(r) => texts(r.args@).push(binary_path),
        None => Seq::<Seq<char>>::empty(),
    }
}

/// The texts of `parts` with `separator` between each two neighbours.
pub open spec fn joined(parts: Seq<Seq<char>>, separator: Seq<char>) -> Seq<char>
    decreases parts.len(),
{
    if parts.len() == 0 {
        Seq::<char>::empty()
    } else if parts.len() == 1 {
        parts[0]
    } else {
        joined(parts.drop_last(), separator) + separator + parts.last()
    }
}

/// The environment of a test process: the marker that says the harness is
/// present, then the variables by which the build tool tells a test about its
/// package. What a package does not state is set to the empty text.
pub open spec fn test_environment(package: PackageInfoView) -> Seq<(Seq<char>, Seq<char>)> {
    seq![
        ("NEXTEST"@, "1"@),
        ("CARGO_MANIFEST_DIR"@, package.manifest_dir),
        ("CARGO_PKG_VERSION"@, package.version),
        ("CARGO_PKG_VERSION_MAJOR"@, decimal(package.version_major)),
        ("CARGO_PKG_VERSION_MINOR"@, decimal(package.version_minor)),
        ("CARGO_PKG_VERSION_PATCH"@, decimal(package.version_patch)),
        ("CARGO_PKG_VERSION_PRE"@, package.version_pre),
        ("CARGO_PKG_AUTHORS"@, joined(package.authors, ":"@)),
        ("CARGO_PKG_NAME"@, package.name),
        ("CARGO_PKG_DESCRIPTION"@, or_empty(package.description)),
        ("CARGO_PKG_HOMEPAGE"@, or_empty(package.homepage)),
        ("CARGO_PKG_LICENSE"@, or_empty(package.license)),
        ("CARGO_PKG_LICENSE_FILE"@, or_empty(package.license_file)),
        ("CARGO_PKG_REPOSITORY"@, or_empty(package.repository)),
    ]
}


/// Joins `parts` with `separator` between each two neighbours.
pub fn join_strings(parts: &Vec<String>, separator: &str) -> (out: String)
    ensures
        out@ == joined(texts(parts@), separator@),
{
    let mut out = String::new();
    let mut i: usize = 0;
    while i < parts.len()
        invariant
            i <= parts.len(),
            out@ == joined(texts(parts@).take(i as int), separator@),
        decreases parts.len() - i,
    {
        proof {
            let all = texts(parts@);
            assert(all.take(i + 1).drop_last() == all.take(i as int));
            assert(all.take(i + 1).last() == parts@[i as int]@);
        }
        if i > 0 {
            out.append(separator);
        }
        out.append(parts[i].as_str());
        i = i + 1;
    }
    proof {
        assert(texts(parts@).take(parts.len() as int) == texts(parts@));
    }
    out
}

/// Copies of `strings`, appended to `out`.
pub fn extend_with(out: &mut Vec<String>, strings: &Vec<String>)
    ensures
        texts(final(out)@) == texts(old(out)@) + texts(strings@),
{
    let mut i: usize = 0;
    while i < strings.len()
        invariant
            i <= strings.len(),
            texts(out@) == texts(old(out)@) + texts(strings@).take(i as int),
        decreases strings.len() - i,
    {
        let ghost before = out@;
        out.push(strings[i].clone());
        proof {
            assert(texts(out@) =~= texts(before).push(strings@[i as int]@));
            assert(texts(strings@).take(i + 1) =~= texts(strings@).take(i as int).push(
                strings@[i as int]@,
            ));
        }
        i = i + 1;
    }
    proof {
        assert(texts(strings@).take(strings.len() as int) == texts(strings@));
    }
}

/// The path by which the binary at `path` is started. See [`started_path`].
pub fn executable_path(path: &str) -> (program: String)
    ensures
        program@ == started_path(path@),
{
    if !path.is_empty() && path.get_char(0) == '/' {
        path.to_string()
    } else {
        join(".", path)
    }
}

impl TestCommand {
    /// The command line of this invocation, as it is quoted in messages.
    /// See [`command_line`].
    pub fn command_line(&self) -> (text: String)
        ensures
            text@ == command_line(self.program@, texts(self.args@)),
    {
        let mut words: Vec<String> = Vec::new();
        words.push(self.program.clone());
        assert(texts(words@) =~= seq![self.program@]);
        extend_with(&mut words, &self.args);
        let mut text = "'".to_string();
        text.append(join_strings(&words, " ").as_str());
        text.append("'");
        text
    }
}

/// The program for the binary at `binary_path`, run through `runner` where
/// there is one.
pub fn program_for(runner: Option<&PlatformRunner>, binary_path: &str) -> (program: String)
    ensures
        program@ == command_program(
            match runner {
                Some(r) => Some(*r),
                None => None,
            },
            binary_path@,
        ),
{
    match runner {
        Some(r) => r.binary().clone(),
        None => executable_path(binary_path),
    }
}

/// The arguments that stand before the binary's own.
pub fn prefix_for(runner: Option<&PlatformRunner>, binary_path: &str) -> (args: Vec<String>)
    ensures
        texts(args@) == command_prefix(
            match runner {
                Some(r) => Some(*r),
                None => None,
            },
            binary_path@,
        ),
{
    let mut args: Vec<String> = Vec::new();
    assert(texts(args@) =~= Seq::<Seq<char>>::empty());
    match runner {
        Some(r) => {
            extend_with(&mut args, r.args());
            let ghost before = args@;
            args.push(binary_path.to_string());
            assert(texts(args@) =~= texts(before).push(binary_path@));
            assert(texts(before) =~= texts(r.args@));
        },
        None => {},
    }
    args
}

fn push_var(env: &mut Vec<(String, String)>, name: &str, value: String)
    ensures
        text_pairs(final(env)@) == text_pairs(old(env)@).push((name@, value@)),
{
    let ghost before = env@;
    env.push((name.to_string(), value));
    assert(text_pairs(env@) =~= text_pairs(before).push((name@, value@)));
}

/// The environment of a test process of `package`.
pub fn environment_for(package: &PackageInfo) -> (env: Vec<(String, String)>)
    ensures
        text_pairs(env@) == test_environment(package@),
{
    let mut env: Vec<(String, String)> = Vec::new();
    assert(text_pairs(env@) =~= Seq::<(Seq<char>, Seq<char>)>::empty());
    push_var(&mut env, "NEXTEST", "1".to_string());
    push_var(&mut env, "CARGO_MANIFEST_DIR", package.manifest_dir.clone());
    push_var(&mut env, "CARGO_PKG_VERSION", package.version.clone());
    push_var(&mut env, "CARGO_PKG_VERSION_MAJOR", u64_to_decimal(package.version_major));
    push_var(&mut env, "CARGO_PKG_VERSION_MINOR", u64_to_decimal(package.version_minor));
    push_var(&mut env, "CARGO_PKG_VERSION_PATCH", u64_to_decimal(package.version_patch));
    push_var(&mut env, "CARGO_PKG_VERSION_PRE", package.version_pre.clone());
    push_var(&mut env, "CARGO_PKG_AUTHORS", join_strings(&package.authors, ":"));
    push_var(&mut env, "CARGO_PKG_NAME", package.name.clone());
    push_var(&mut env, "CARGO_PKG_DESCRIPTION", clone_or_empty(&package.description));
    push_var(&mut env, "CARGO_PKG_HOMEPAGE", clone_or_empty(&package.homepage));
    push_var(&mut env, "CARGO_PKG_LICENSE", clone_or_empty(&package.license));
    push_var(&mut env, "CARGO_PKG_LICENSE_FILE", clone_or_empty(&package.license_file));
    push_var(&mut env, "CARGO_PKG_REPOSITORY", clone_or_empty(&package.repository));
    assert(text_pairs(env@) =~= test_environment(package@));
    env
}

} // verus!
