//! Rewriting of paths between the place of the build and the place of the run.

use crate::package::PackageIndex;
use crate::path::{
    file_name, join, path_file_name, path_joined, path_without_prefix, strip_prefix,
};
use crate::text::opt_text;
use vstd::prelude::*;

verus! {

/// Maps the paths of build time to those of run time, for tests that run in
/// another directory, or on another machine, than the one they were built in.
#[derive(Clone, Debug)]
pub struct PathMapper {
    // The workspace root at build time, and the one at run time.
    workspace: Option<(String, String)>,
    // The directory that holds the binaries at run time.
    binaries_dir: Option<String>,
}

/// The model of a `PathMapper`.
pub struct PathMapperView {
    /// The root of the workspace at build time and the root at run time,
    /// where the workspace has moved.
    pub workspace: Option<(Seq<char>, Seq<char>)>,
    /// The directory that holds the binaries at run time, where they have
    /// been put into one.
    pub binaries_dir: Option<Seq<char>>,
}

impl View for PathMapper {
    type V = PathMapperView;

    closed spec fn view(&self) -> PathMapperView {
        PathMapperView {
            workspace: match self.workspace {
                Some((from, to)) => Some((from@, to@)),
                None => None,
            },
            binaries_dir: opt_text(self.binaries_dir),
        }
    }
}

/// `path` moved from under `from` to under `to`: where `rest` is what
/// follows `from` in `path`, it is `rest` adjoined to `to`; where `from` is
/// no prefix of `path`, so that there is no `rest`, it is `path` itself.
pub open spec fn rebased(path: Seq<char>, rest: Option<Seq<char>>, to: Seq<char>) -> Seq<char> {
    match rest {
        Some(rest) => path_joined(to, rest),
        None => path,
    }
}

/// The working directory `path` at run time. Under the workspace root of
/// build time it is moved to the root of run time; a path outside of it, and
/// every path where the workspace has not moved, stays.
pub open spec fn mapped_cwd(mapper: PathMapperView, path: Seq<char>) -> Seq<char> {
    match mapper.workspace {
        Some((from, to)) => rebased(path, path_without_prefix(path, from), to),
        None => path,
    }
}

/// The binary `path` at run time: the file of its name in the directory of
/// the binaries, where there is such a directory and `path` has a file name;
/// else `path`.
pub open spec fn mapped_binary(mapper: PathMapperView, path: Seq<char>) -> Seq<char> {
    match mapper.binaries_dir {
        Some(dir) => rebased(path, path_file_name(path), dir),
        None => path,
    }
}

/// `path` moved to under `to`. See [`rebased`].
pub fn rebase(path: String, rest: Option<String>, to: &str) -> (moved: String)
    ensures
        moved@ == rebased(path@, opt_text(rest), to@),
{
    match rest {
        Some(rest) => join(to, rest.as_str()),
        None => path,
    }
}

impl PathMapper {
    /// The mapper for a workspace that now lies at `workspace`, where that is
    /// given, and whose binaries now lie in `binaries_dir`, where that is
    /// given. With neither there is nothing to map, and no mapper. The root
    /// that the workspace had at build time is that of `graph`.
    pub fn new(
        graph: &PackageIndex,
        workspace: Option<String>,
        binaries_dir: Option<String>,
    ) -> (mapper: Option<Self>)
        ensures
            mapper is None <==> workspace is None && binaries_dir is None,
            mapper matches Some(m) ==> m@ == (PathMapperView {
                workspace: match workspace {
                    Some(to) => Some((graph.workspace_root@, to@)),
                    None => None,
                },
                binaries_dir: opt_text(binaries_dir),
            }),
    {
        if workspace.is_none() && binaries_dir.is_none() {
            return None;
        }
        let workspace = match workspace {
            Some(to) => Some((graph.workspace_root.clone(), to)),
            None => None,
        };
        Some(PathMapper { workspace, binaries_dir })
    }

    /// The working directory `path` at run time. See [`mapped_cwd`].
    pub fn map_cwd(&self, path: String) -> (mapped: String)
        ensures
            mapped@ == mapped_cwd(self@, path@),
    {
        match &self.workspace {
            Some((from, to)) => {
                let rest = strip_prefix(path.as_str(), from.as_str());
                rebase(path, rest, to.as_str())
            },
            None => path,
        }
    }

    /// The binary `path` at run time. See [`mapped_binary`].
    pub fn map_binary(&self, path: String) -> (mapped: String)
        ensures
            mapped@ == mapped_binary(self@, path@),
    {
        match &self.binaries_dir {
            Some(dir) => {
                let file = file_name(path.as_str());
                rebase(path, file, dir.as_str())
            },
            None => path,
        }
    }
}

} // verus!
