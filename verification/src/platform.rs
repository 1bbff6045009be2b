//! The platform a test binary was built for.

use vstd::prelude::*;

verus! {

/// The platform a binary was built for. Cross-compiled binaries run on the
/// target; procedural macros always run on the machine that compiles.
#[derive(Clone, Copy, Debug, PartialEq, Eq, Structural)]
pub enum BuildPlatform {
    /// The platform the build is for.
    Target,
    /// The platform the build runs on.
    Host,
}

/// The word by which a platform is written in listings and summaries.
pub open spec fn platform_text(platform: BuildPlatform) -> Seq<char> {
    match platform {
        BuildPlatform::Target => "target"@,
        BuildPlatform::Host => "host"@,
    }
}

impl BuildPlatform {
    /// The word by which this platform is written: `target` or `host`.
    pub fn as_str(&self) -> (word: &'static str)
        ensures
            word@ == platform_text(*self),
    {
        match self {
            BuildPlatform::Target => "target",
            BuildPlatform::Host => "host",
        }
    }
}

} // verus!
