//! Runner wrappers: programs through which the binaries of a platform are run.

use crate::platform::BuildPlatform;
use vstd::prelude::*;

verus! {

/// A program through which test binaries are run, such as an emulator, and
/// the arguments it is always given before the binary's path.
#[derive(Clone, Debug, PartialEq, Eq)]
pub struct PlatformRunner {
    /// The runner's executable.
    pub runner_binary: String,
    /// The arguments that the runner is given before the binary.
    pub args: Vec<String>,
}

impl PlatformRunner {
    /// The runner's executable.
    pub fn binary(&self) -> (binary: &String)
        ensures
            *binary == self.runner_binary,
    {
        &self.runner_binary
    }

    /// The arguments that the runner is given before the binary.
    pub fn args(&self) -> (args: &Vec<String>)
        ensures
            *args == self.args,
    {
        &self.args
    }
}

/// The runner wrappers in use, one for each build platform at most.
#[derive(Clone, Debug, PartialEq, Eq)]
pub struct TargetRunner {
    /// The wrapper for binaries built for the host.
    pub host: Option<PlatformRunner>,
    /// The wrapper for binaries built for the target.
    pub target: Option<PlatformRunner>,
}

/// The wrapper that `runner` has for `platform`.
pub open spec fn runner_for(
    runner: TargetRunner,
    platform: BuildPlatform,
) -> Option<PlatformRunner> {
    match platform {
        BuildPlatform::Target => runner.target,
        BuildPlatform::Host => runner.host,
    }
}

impl TargetRunner {
    /// No wrapper for either platform: every binary is run directly.
    pub fn empty() -> (runner: Self)
        ensures
            runner.host is None,
            runner.target is None,
    {
        TargetRunner { host: None, target: None }
    }

    /// The wrapper through which binaries built for `build_platform` run, if
    /// there is one.
    pub fn for_build_platform(
        &self,
        build_platform: BuildPlatform,
    ) -> (found: Option<&PlatformRunner>)
        ensures
            match found {
                Some(r) => runner_for(*self, build_platform) == Some(*r),
                None => runner_for(*self, build_platform) is None,
            },
    {
        match build_platform {
            BuildPlatform::Target => self.target.as_ref(),
            BuildPlatform::Host => self.host.as_ref(),
        }
    }
}

} // verus!
