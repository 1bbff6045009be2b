//! The binaries of a build, found in the messages that the build tool wrote.

use crate::errors::{FromMessagesError, FromMessagesErrorView};
use crate::nesting::{deepest_nesting, readable_len, readable_len_of, MAX_NESTING};
use crate::order::{code_points, str_lt};
use crate::package::{package_with_id, PackageIndex, PackageInfo};
use crate::platform::BuildPlatform;
use crate::sort::{lemma_stable_sort_views, sort_by_key, stable_sort, views, Keyed, SortKey};
use crate::text::{same_text, texts};
use cargo_metadata::Message;
use vstd::prelude::*;
use vstd::slice::slice_subrange;

verus! {

/// A test binary that the build produced.
#[derive(Clone, Debug, PartialEq, Eq)]
pub struct RustTestBinary {
    /// The identifier of the binary, unique among all binaries of a build.
    pub id: String,
    /// The path of the binary.
    pub path: String,
    /// The identifier of the package that the binary belongs to.
    pub package_id: String,
    /// The name of the binary within its package.
    pub name: String,
    /// The platform the binary was built for.
    pub build_platform: BuildPlatform,
}

/// The model of a `RustTestBinary`.
pub struct RustTestBinaryView {
    /// The identifier of the binary.
    pub id: Seq<char>,
    /// The path of the binary.
    pub path: Seq<char>,
    /// The identifier of the package.
    pub package_id: Seq<char>,
    /// The name of the binary within its package.
    pub name: Seq<char>,
    /// The platform the binary was built for.
    pub build_platform: BuildPlatform,
}

impl View for RustTestBinary {
    type V = RustTestBinaryView;

    open spec fn view(&self) -> RustTestBinaryView {
        RustTestBinaryView {
            id: self.id@,
            path: self.path@,
            package_id: self.package_id@,
            name: self.name@,
            build_platform: self.build_platform,
        }
    }
}

impl SortKey for RustTestBinaryView {
    open spec fn sort_key(&self) -> Seq<int> {
        code_points(self.id)
    }
}

impl SortKey for RustTestBinary {
    open spec fn sort_key(&self) -> Seq<int> {
        code_points(self.id@)
    }
}

impl Keyed for RustTestBinary {
    fn comes_before(&self, other: &Self) -> (before: bool) {
        str_lt(self.id.as_str(), other.id.as_str())
    }
}

/// The test binaries of a build.
#[derive(Clone, Debug, PartialEq, Eq)]
pub struct BinaryList {
    /// The binaries.
    pub rust_binaries: Vec<RustTestBinary>,
}

/// What a build message says of a file that the compiler produced.
#[derive(Clone, Debug, PartialEq, Eq)]
pub struct BuildArtifact {
    /// The identifier of the package that the file belongs to.
    pub package_id: String,
    /// The name of the target that was compiled.
    pub target_name: String,
    /// The kinds of the target, such as `lib`, `bin`, `test` or `proc-macro`.
    pub target_kinds: Vec<String>,
    /// Whether the file was compiled with the test profile.
    pub test_profile: bool,
    /// The path of the executable, where the file is one.
    pub executable: Option<String>,
}

/// The model of a `BuildArtifact`.
pub struct BuildArtifactView {
    /// The identifier of the package.
    pub package_id: Seq<char>,
    /// The name of the target.
    pub target_name: Seq<char>,
    /// The kinds of the target.
    pub target_kinds: Seq<Seq<char>>,
    /// Whether the file was compiled with the test profile.
    pub test_profile: bool,
    /// The path of the executable.
    pub executable: Option<Seq<char>>,
}

impl View for BuildArtifact {
    type V = BuildArtifactView;

    open spec fn view(&self) -> BuildArtifactView {
        BuildArtifactView {
            package_id: self.package_id@,
            target_name: self.target_name@,
            target_kinds: texts(self.target_kinds@),
            test_profile: self.test_profile,
            executable: match self.executable {
                Some(path) => Some(path@),
                None => None,
            },
        }
    }
}

/// One message of a build.
#[derive(Clone, Debug, PartialEq, Eq)]
pub enum BuildMessage {
    /// The compiler produced a file.
    CompilerArtifact(BuildArtifact),
    /// Anything else. The list of binaries does not depend on it.
    Other,
}

/// The model of a `BuildMessage`.
pub enum BuildMessageView {
    /// The compiler produced a file.
    CompilerArtifact(BuildArtifactView),
    /// Anything else.
    Other,
}

impl View for BuildMessage {
    type V = BuildMessageView;

    open spec fn view(&self) -> BuildMessageView {
        match self {
            BuildMessage::CompilerArtifact(artifact) => BuildMessageView::CompilerArtifact(
                artifact@,
            ),
            BuildMessage::Other => BuildMessageView::Other,
        }
    }
}

/// The model of what reading one message gave: the message, or the words of
/// the error.
pub open spec fn read_view(
    read: Result<BuildMessage, String>,
) -> Result<BuildMessageView, Seq<char>> {
    match read {
        Ok(message) => Ok(message@),
        Err(error) => Err(error@),
    }
}

/// The models of what reading a stream of messages gave.
pub open spec fn read_views(reads: Seq<Result<BuildMessage, String>>) -> Seq<
    Result<BuildMessageView, Seq<char>>,
> {
    Seq::new(reads.len(), |i: int| read_view(reads[i]))
}

/// What `cargo_metadata::Message::parse_stream` reads from the bytes `input`:
/// for each line one message, or the words of the error that reading the line
/// gave.
pub uninterp spec fn cargo_messages(input: Seq<u8>) -> Seq<Result<BuildMessageView, Seq<char>>>;

/// `cargo_metadata::Message::parse_stream`, on bytes that are already in
/// memory. Every line of the input gives one item, in order. Of a message
/// that reports a compiled file the fields are taken over; every other
/// message, a line that is no message among them, is `Other`; a line that
/// cannot be read gives the words of its error.
///
/// `cargo_metadata` follows the brackets of a line by recursion and has the
/// depth check of `serde_json` switched off, so a line that is nested too
/// deep would use up the stack. Such input is left out.
#[verifier::external_body]
fn parse_message_stream(input: &[u8]) -> (reads: Vec<Result<BuildMessage, String>>)
    requires
        deepest_nesting(input@) <= MAX_NESTING,
    ensures
        read_views(reads@) == cargo_messages(input@),
{
    Message::parse_stream(input).map(|read| match read {
        Ok(Message::CompilerArtifact(a)) => Ok(BuildMessage::CompilerArtifact(BuildArtifact {
            package_id: a.package_id.repr,
            target_name: a.target.name,
            target_kinds: a.target.kind,
            test_profile: a.profile.test,
            executable: a.executable.map(|path| path.into_string()),
        })),
        Ok(_) => Ok(BuildMessage::Other),
        Err(error) => Err(error.to_string()),
    }).collect()
}

/// The identifier of the binary of a target named `target_name`, of kinds
/// `kinds`, in the package named `package_name`.
///
/// A package has one library at most, so a library target takes the
/// package's name. Targets of one kind have different names within a
/// package: an integration test takes its name behind the package's, and
/// every other target its first kind and its name. A target without a kind
/// gets no identifier.
pub open spec fn binary_id(
    package_name: Seq<char>,
    target_name: Seq<char>,
    kinds: Seq<Seq<char>>,
) -> Option<Seq<char>> {
    if kinds.contains("lib"@) {
        Some(package_name)
    } else if kinds.len() == 0 {
        None
    } else if kinds[0] == "test"@ {
        Some(package_name + "::"@ + target_name)
    } else {
        Some(package_name + "::"@ + kinds[0] + "/"@ + target_name)
    }
}

/// The platform that a target of kinds `kinds` is built for: the host where
/// it is a procedural macro and nothing else, the target otherwise.
pub open spec fn platform_of_kinds(kinds: Seq<Seq<char>>) -> BuildPlatform {
    if kinds.len() == 1 && kinds[0] == "proc-macro"@ {
        BuildPlatform::Host
    } else {
        BuildPlatform::Target
    }
}

/// The test binary that `artifact` reports, if it reports one: a file that
/// was compiled with the test profile and can be executed. Its package must
/// be known, and its target must have a kind.
pub open spec fn binary_of(artifact: BuildArtifactView, packages: Seq<PackageInfo>) -> Result<
    Option<RustTestBinaryView>,
    FromMessagesErrorView,
> {
    if !artifact.test_profile || artifact.executable is None {
        Ok(None)
    } else {
        match package_with_id(packages, artifact.package_id) {
            None => Err(FromMessagesErrorView::PackageGraph { package_id: artifact.package_id }),
            Some(package) => match binary_id(
                package.name@,
                artifact.target_name,
                artifact.target_kinds,
            ) {
                None => Err(
                    FromMessagesErrorView::MissingTargetKind {
                        package_name: package.name@,
                        binary_name: artifact.target_name,
                    },
                ),
                Some(id) => Ok(
                    Some(
                        RustTestBinaryView {
                            id,
                            path: artifact.executable->Some_0,
                            package_id: artifact.package_id,
                            name: artifact.target_name,
                            build_platform: platform_of_kinds(artifact.target_kinds),
                        },
                    ),
                ),
            },
        }
    }
}

/// The test binary that one read of the message stream gives, if any.
pub open spec fn binary_of_read(
    read: Result<BuildMessageView, Seq<char>>,
    packages: Seq<PackageInfo>,
) -> Result<Option<RustTestBinaryView>, FromMessagesErrorView> {
    match read {
        Err(message) => Err(FromMessagesErrorView::ReadMessages { message }),
        Ok(BuildMessageView::Other) => Ok(None),
        Ok(BuildMessageView::CompilerArtifact(artifact)) => binary_of(artifact, packages),
    }
}

/// The test binaries that `reads` report, in the order of the stream, or the
/// first error met on the way.
pub open spec fn binaries_of(
    reads: Seq<Result<BuildMessageView, Seq<char>>>,
    packages: Seq<PackageInfo>,
) -> Result<Seq<RustTestBinaryView>, FromMessagesErrorView>
    decreases reads.len(),
{
    if reads.len() == 0 {
        Ok(Seq::<RustTestBinaryView>::empty())
    } else {
        match binaries_of(reads.drop_last(), packages) {
            Err(e) => Err(e),
            Ok(found) => match binary_of_read(reads.last(), packages) {
                Err(e) => Err(e),
                Ok(Some(binary)) => Ok(found.push(binary)),
                Ok(None) => Ok(found),
            },
        }
    }
}

/// The list of binaries that the reads of a message stream give: the
/// binaries they report, sorted by identifier, or the first error.
pub open spec fn binary_list_of(
    reads: Seq<Result<BuildMessageView, Seq<char>>>,
    packages: Seq<PackageInfo>,
) -> Result<Seq<RustTestBinaryView>, FromMessagesErrorView> {
    match binaries_of(reads, packages) {
        Err(e) => Err(e),
        Ok(found) => Ok(stable_sort(found)),
    }
}

/// The words of the error of a message that is nested too deep to be read.
pub open spec fn too_deep_message() -> Seq<char> {
    "a message is nested too deep to be read"@
}

/// The list of binaries that the bytes `input` of a message stream give: the
/// list that the lines at its front give that can be read, where that is
/// all of them or they give an error; else the error of the first line that
/// is nested too deep.
pub open spec fn readable_binary_list_of(input: Seq<u8>, packages: Seq<PackageInfo>) -> Result<
    Seq<RustTestBinaryView>,
    FromMessagesErrorView,
> {
    let len = readable_len_of(input);
    match binary_list_of(cargo_messages(input.take(len)), packages) {
        Err(e) => Err(e),
        Ok(found) => if len < input.len() {
            Err(FromMessagesErrorView::ReadMessages { message: too_deep_message() })
        } else {
            Ok(found)
        },
    }
}

/// Whether one of `strings` is `wanted`.
pub fn contains_text(strings: &Vec<String>, wanted: &str) -> (found: bool)
    ensures
        found == texts(strings@).contains(wanted@),
{
    let mut i: usize = 0;
    while i < strings.len()
        invariant
            i <= strings.len(),
            forall|j: int| 0 <= j < i ==> texts(strings@)[j] != wanted@,
        decreases strings.len() - i,
    {
        if same_text(strings[i].as_str(), wanted) {
            assert(texts(strings@)[i as int] == wanted@);
            return true;
        }
        i = i + 1;
    }
    false
}

/// Makes the identifier of a binary. See [`binary_id`].
pub fn make_binary_id(
    package_name: &str,
    target_name: &str,
    kinds: &Vec<String>,
) -> (id: Option<String>)
    ensures
        match id {
            Some(id) => binary_id(package_name@, target_name@, texts(kinds@)) == Some(id@),
            None => binary_id(package_name@, target_name@, texts(kinds@)) is None,
        },
{
    let mut id = package_name.to_string();
    if contains_text(kinds, "lib") {
        return Some(id);
    }
    if kinds.len() == 0 {
        return None;
    }
    assert(texts(kinds@)[0] == kinds@[0]@);
    id.append("::");
    if same_text(kinds[0].as_str(), "test") {
        id.append(target_name);
    } else {
        id.append(kinds[0].as_str());
        id.append("/");
        id.append(target_name);
    }
    Some(id)
}

/// The platform that a target of kinds `kinds` is built for. See
/// [`platform_of_kinds`].
pub fn build_platform_of(kinds: &Vec<String>) -> (platform: BuildPlatform)
    ensures
        platform == platform_of_kinds(texts(kinds@)),
{
    if kinds.len() == 1 && same_text(kinds[0].as_str(), "proc-macro") {
        assert(texts(kinds@)[0] == kinds@[0]@);
        BuildPlatform::Host
    } else {
        proof {
            if kinds.len() == 1 {
                assert(texts(kinds@)[0] == kinds@[0]@);
            }
        }
        BuildPlatform::Target
    }
}

/// The test binary that `artifact` reports, if it reports one.
fn binary_from_artifact(artifact: BuildArtifact, graph: &PackageIndex) -> (found: Result<
    Option<RustTestBinary>,
    FromMessagesError,
>)
    ensures
        match found {
            Ok(Some(binary)) => binary_of(artifact@, graph.packages@) == Ok::<
                Option<RustTestBinaryView>,
                FromMessagesErrorView,
            >(Some(binary@)),
            Ok(None) => binary_of(artifact@, graph.packages@) == Ok::<
                Option<RustTestBinaryView>,
                FromMessagesErrorView,
            >(None),
            Err(e) => binary_of(artifact@, graph.packages@) == Err::<
                Option<RustTestBinaryView>,
                FromMessagesErrorView,
            >(e@),
        },
{
    if !artifact.test_profile {
        return Ok(None);
    }
    let BuildArtifact { package_id, target_name, target_kinds, test_profile: _, executable } =
        artifact;
    let path = match executable {
        Some(path) => path,
        None => {
            return Ok(None);
        },
    };
    // Look up the package by its identifier.
    let package = match graph.metadata(package_id.as_str()) {
        Some(package) => package,
        None => {
            return Err(FromMessagesError::PackageGraph { package_id });
        },
    };
    let id = match make_binary_id(package.name.as_str(), target_name.as_str(), &target_kinds) {
        Some(id) => id,
        None => {
            return Err(
                FromMessagesError::MissingTargetKind {
                    package_name: package.name.clone(),
                    binary_name: target_name,
                },
            );
        },
    };
    let build_platform = build_platform_of(&target_kinds);
    Ok(Some(RustTestBinary { id, path, package_id, name: target_name, build_platform }))
}

impl BinaryList {
    /// The test binaries that the build messages in `input` report, sorted by
    /// identifier.
    ///
    /// `input` holds what the build tool wrote, one message to a line. The
    /// messages are read in order, and the first one that cannot be read, that
    /// names an unknown package or that gives a target without a kind ends
    /// the reading with its error.
    ///
    /// The messages are read by recursion over their brackets, so no line of
    /// `input` may be nested deeper than [`MAX_NESTING`];
    /// [`nesting_is_bounded`](crate::nesting::nesting_is_bounded) tests that.
    pub fn from_messages(
        input: &[u8],
        graph: &PackageIndex,
    ) -> (list: Result<Self, FromMessagesError>)
        requires
            deepest_nesting(input@) <= MAX_NESTING,
        ensures
            match list {
                Ok(list) => binary_list_of(cargo_messages(input@), graph.packages@) == Ok::<
                    Seq<RustTestBinaryView>,
                    FromMessagesErrorView,
                >(views(list.rust_binaries@)),
                Err(e) => binary_list_of(cargo_messages(input@), graph.packages@) == Err::<
                    Seq<RustTestBinaryView>,
                    FromMessagesErrorView,
                >(e@),
            },
    {
        let reads = parse_message_stream(input);
        Self::from_parsed_messages(reads, graph)
    }

    /// The test binaries that the build messages in `input` report, sorted by
    /// identifier, for every `input`.
    ///
    /// The messages are read as [`BinaryList::from_messages`] reads them, up
    /// to the first line that is nested deeper than [`MAX_NESTING`]. Such a
    /// line cannot be read: unless a message before it gave an error, it ends
    /// the reading with an error of its own.
    pub fn read_messages(input: &[u8], graph: &PackageIndex) -> (list: Result<
        Self,
        FromMessagesError,
    >)
        ensures
            match list {
                Ok(list) => readable_binary_list_of(input@, graph.packages@) == Ok::<
                    Seq<RustTestBinaryView>,
                    FromMessagesErrorView,
                >(views(list.rust_binaries@)),
                Err(e) => readable_binary_list_of(input@, graph.packages@) == Err::<
                    Seq<RustTestBinaryView>,
                    FromMessagesErrorView,
                >(e@),
            },
    {
        let len = readable_len(input);
        let readable = slice_subrange(input, 0, len);
        assert(readable@ == input@.take(len as int));
        match Self::from_messages(readable, graph) {
            Err(e) => Err(e),
            Ok(list) => if len < input.len() {
                Err(
                    FromMessagesError::ReadMessages {
                        message: "a message is nested too deep to be read".to_string(),
                    },
                )
            } else {
                Ok(list)
            },
        }
    }

    /// The test binaries that `reads` report, sorted by identifier; binaries
    /// with one identifier stay in the order of the stream.
    ///
    /// Each item of `reads` is a message of the build, or the words of the
    /// error that reading it gave. A message counts where it reports a file
    /// that was compiled with the test profile and can be executed. The
    /// items are taken in order, and the first error ends the work: an item
    /// that could not be read, a package that `graph` does not know, or a
    /// target without a kind.
    pub fn from_parsed_messages(
        reads: Vec<Result<BuildMessage, String>>,
        graph: &PackageIndex,
    ) -> (list: Result<Self, FromMessagesError>)
        ensures
            match list {
                Ok(list) => binary_list_of(read_views(reads@), graph.packages@) == Ok::<
                    Seq<RustTestBinaryView>,
                    FromMessagesErrorView,
                >(views(list.rust_binaries@)),
                Err(e) => binary_list_of(read_views(reads@), graph.packages@) == Err::<
                    Seq<RustTestBinaryView>,
                    FromMessagesErrorView,
                >(e@),
            },
    {
        let mut rust_binaries: Vec<RustTestBinary> = Vec::new();
        let ghost all = reads@;
        let ghost packages = graph.packages@;
        assert(views(rust_binaries@) =~= Seq::<RustTestBinaryView>::empty());
        for read in it: reads
            invariant
                it.seq() == all,
                packages == graph.packages@,
                binaries_of(read_views(all).take(it.index() as int), packages) == Ok::<
                    Seq<RustTestBinaryView>,
                    FromMessagesErrorView,
                >(views(rust_binaries@)),
        {
            let ghost done = read_views(all).take(it.index() as int);
            let ghost grown = read_views(all).take(it.index() + 1);
            proof {
                assert(grown.drop_last() == done);
                assert(grown.last() == read_view(read));
            }
            let found = match read {
                Err(message) => Err(FromMessagesError::ReadMessages { message }),
                Ok(BuildMessage::Other) => Ok(None),
                Ok(BuildMessage::CompilerArtifact(artifact)) => binary_from_artifact(
                    artifact,
                    graph,
                ),
            };
            match found {
                Err(e) => {
                    proof {
                        lemma_binaries_of_error(read_views(all), packages, it.index() + 1);
                    }
                    return Err(e);
                },
                Ok(Some(binary)) => {
                    let ghost before = rust_binaries@;
                    rust_binaries.push(binary);
                    assert(views(rust_binaries@) =~= views(before).push(binary@));
                },
                Ok(None) => {},
            }
        }
        proof {
            assert(read_views(all).take(all.len() as int) == read_views(all));
            assert forall|i: int| 0 <= i < rust_binaries@.len() implies (
            #[trigger] rust_binaries@[i])@.sort_key() == rust_binaries@[i].sort_key() by {}
            lemma_stable_sort_views(rust_binaries@);
        }
        let rust_binaries = sort_by_key(rust_binaries);
        Ok(BinaryList { rust_binaries })
    }
}

/// An error among the first `n` reads is the error of the whole stream.
proof fn lemma_binaries_of_error(
    reads: Seq<Result<BuildMessageView, Seq<char>>>,
    packages: Seq<PackageInfo>,
    n: int,
)
    requires
        0 <= n <= reads.len(),
        binaries_of(reads.take(n), packages) is Err,
    ensures
        binaries_of(reads, packages) == binaries_of(reads.take(n), packages),
    decreases reads.len() - n,
{
    if n < reads.len() {
        assert(reads.take(n + 1).drop_last() == reads.take(n));
        lemma_binaries_of_error(reads, packages, n + 1);
    } else {
        assert(reads.take(n) == reads);
    }
}

} // verus!
