//! Test binaries, the suites of tests found in them, and single tests.

use crate::binary_list::{BinaryList, RustTestBinaryView};
use crate::command::{
    command_line, command_prefix, command_program, environment_for, prefix_for, program_for,
    test_environment, text_pairs, TestCommand, TestCommandView,
};
use crate::errors::{FromMessagesError, FromMessagesErrorView};
use crate::filter::RustTestCaseSummary;
use crate::keymap::NameMap;
use crate::package::{package_with_id, PackageIndex, PackageInfo, PackageInfoView};
use crate::path_mapper::{mapped_binary, mapped_cwd, PathMapper, PathMapperView};
use crate::platform::BuildPlatform;
use crate::sort::views;
use crate::runner::{runner_for, PlatformRunner, TargetRunner};
use crate::text::texts;
use vstd::prelude::*;

verus! {

/// A test binary that has been built and not yet asked for its tests.
#[derive(Clone, Debug, PartialEq, Eq)]
pub struct RustTestArtifact {
    /// The identifier of the binary, unique among all binaries of a build.
    pub binary_id: String,
    /// The package that the binary belongs to. Its metadata is handed to the
    /// tests through the environment.
    pub package: PackageInfo,
    /// The path of the binary.
    pub binary_path: String,
    /// The name of the binary within its package.
    pub binary_name: String,
    /// The directory in which the binary is run.
    pub cwd: String,
    /// The platform the binary was built for.
    pub build_platform: BuildPlatform,
}

/// The model of a `RustTestArtifact`.
pub struct RustTestArtifactView {
    /// The identifier of the binary.
    pub binary_id: Seq<char>,
    /// The package that the binary belongs to.
    pub package: PackageInfoView,
    /// The path of the binary.
    pub binary_path: Seq<char>,
    /// The name of the binary within its package.
    pub binary_name: Seq<char>,
    /// The directory in which the binary is run.
    pub cwd: Seq<char>,
    /// The platform the binary was built for.
    pub build_platform: BuildPlatform,
}

impl View for RustTestArtifact {
    type V = RustTestArtifactView;

    open spec fn view(&self) -> RustTestArtifactView {
        RustTestArtifactView {
            binary_id: self.binary_id@,
            package: self.package@,
            binary_path: self.binary_path@,
            binary_name: self.binary_name@,
            cwd: self.cwd@,
            build_platform: self.build_platform,
        }
    }
}

/// Whether a binary built for `platform` passes `platform_filter`: a filter
/// lets the binaries of its platform pass, and no filter lets every binary
/// pass.
pub open spec fn passes_platform(
    platform_filter: Option<BuildPlatform>,
    platform: BuildPlatform,
) -> bool {
    match platform_filter {
        Some(wanted) => wanted == platform,
        None => true,
    }
}

/// The artifact of `binary`: the binary with the metadata of its package,
/// run in the directory of the package's manifest, both paths mapped where
/// there is a mapper. The package must be known.
pub open spec fn artifact_of(
    binary: RustTestBinaryView,
    packages: Seq<PackageInfo>,
    mapper: Option<PathMapperView>,
) -> Result<RustTestArtifactView, FromMessagesErrorView> {
    match package_with_id(packages, binary.package_id) {
        None => Err(FromMessagesErrorView::PackageGraph { package_id: binary.package_id }),
        Some(package) => Ok(
            RustTestArtifactView {
                binary_id: binary.id,
                package: package@,
                binary_path: match mapper {
                    Some(m) => mapped_binary(m, binary.path),
                    None => binary.path,
                },
                binary_name: binary.name,
                cwd: match mapper {
                    Some(m) => mapped_cwd(m, package.manifest_dir@),
                    None => package.manifest_dir@,
                },
                build_platform: binary.build_platform,
            },
        ),
    }
}

/// The artifacts of those of `binaries` that pass `platform_filter`, in
/// order, or the error of the first of them whose package is not known.
pub open spec fn artifacts_of(
    binaries: Seq<RustTestBinaryView>,
    packages: Seq<PackageInfo>,
    mapper: Option<PathMapperView>,
    platform_filter: Option<BuildPlatform>,
) -> Result<Seq<RustTestArtifactView>, FromMessagesErrorView>
    decreases binaries.len(),
{
    if binaries.len() == 0 {
        Ok(Seq::<RustTestArtifactView>::empty())
    } else {
        match artifacts_of(binaries.drop_last(), packages, mapper, platform_filter) {
            Err(e) => Err(e),
            Ok(found) => if passes_platform(platform_filter, binaries.last().build_platform) {
                match artifact_of(binaries.last(), packages, mapper) {
                    Err(e) => Err(e),
                    Ok(artifact) => Ok(found.push(artifact)),
                }
            } else {
                Ok(found)
            },
        }
    }
}

/// An error among the first `n` binaries is the error of them all.
proof fn lemma_artifacts_of_error(
    binaries: Seq<RustTestBinaryView>,
    packages: Seq<PackageInfo>,
    mapper: Option<PathMapperView>,
    platform_filter: Option<BuildPlatform>,
    n: int,
)
    requires
        0 <= n <= binaries.len(),
        artifacts_of(binaries.take(n), packages, mapper, platform_filter) is Err,
    ensures
        artifacts_of(binaries, packages, mapper, platform_filter) == artifacts_of(
            binaries.take(n),
            packages,
            mapper,
            platform_filter,
        ),
    decreases binaries.len() - n,
{
    if n < binaries.len() {
        assert(binaries.take(n + 1).drop_last() == binaries.take(n));
        lemma_artifacts_of_error(binaries, packages, mapper, platform_filter, n + 1);
    } else {
        assert(binaries.take(n) == binaries);
    }
}

/// The tests of one binary.
#[derive(Clone, Debug, PartialEq, Eq)]
pub struct RustTestSuite {
    /// The identifier of the binary.
    pub binary_id: String,
    /// The package that the binary belongs to.
    pub package: PackageInfo,
    /// The name of the binary within its package.
    pub binary_name: String,
    /// The directory in which the binary is run.
    pub cwd: String,
    /// The platform the binary was built for.
    pub build_platform: BuildPlatform,
    /// The test cases by name.
    pub testcases: NameMap<RustTestCaseSummary>,
}

/// Whether two suites carry the same: identifier, package, name, working
/// directory, platform and test cases.
pub open spec fn same_suite(a: RustTestSuite, b: RustTestSuite) -> bool {
    &&& a.binary_id@ == b.binary_id@
    &&& a.package@ == b.package@
    &&& a.binary_name@ == b.binary_name@
    &&& a.cwd@ == b.cwd@
    &&& a.build_platform == b.build_platform
    &&& a.testcases@ == b.testcases@
}

impl RustTestSuite {
    /// A copy of this suite.
    pub fn duplicate(&self) -> (copy: Self)
        ensures
            same_suite(copy, *self),
    {
        RustTestSuite {
            binary_id: self.binary_id.clone(),
            package: self.package.duplicate(),
            binary_name: self.binary_name.clone(),
            cwd: self.cwd.clone(),
            build_platform: self.build_platform,
            testcases: self.testcases.duplicate(),
        }
    }
}

/// One test of one binary: a view into a list of tests, made while the list
/// is walked and not kept.
#[derive(Clone, Copy, Debug, PartialEq, Eq)]
pub struct TestInstance<'a> {
    /// The name of the test.
    pub name: &'a str,
    /// The path of the binary.
    pub binary: &'a str,
    /// The suite that the test belongs to.
    pub bin_info: &'a RustTestSuite,
    /// What is known of the test.
    pub test_info: &'a RustTestCaseSummary,
}

/// The arguments by which a binary is asked to list its tests: the plain
/// ones, or the ignored ones where `ignored` is set.
pub open spec fn list_arguments(ignored: bool) -> Seq<Seq<char>> {
    if ignored {
        seq!["--list"@, "--format"@, "terse"@, "--ignored"@]
    } else {
        seq!["--list"@, "--format"@, "terse"@]
    }
}

/// The arguments by which a binary is asked to run the single test `name`.
pub open spec fn test_arguments(name: Seq<char>, ignored: bool) -> Seq<Seq<char>> {
    if ignored {
        seq!["--exact"@, name, "--nocapture"@, "--ignored"@]
    } else {
        seq!["--exact"@, name, "--nocapture"@]
    }
}

/// The invocation that makes the binary of `artifact` list its tests.
pub open spec fn list_command(
    artifact: RustTestArtifact,
    ignored: bool,
    runner: Option<PlatformRunner>,
) -> TestCommandView {
    TestCommandView {
        program: command_program(runner, artifact.binary_path@),
        args: command_prefix(runner, artifact.binary_path@) + list_arguments(ignored),
        cwd: artifact.cwd@,
        env: Seq::<(Seq<char>, Seq<char>)>::empty(),
    }
}

/// The invocation that runs the test `name` of the binary at `binary`, which
/// belongs to `suite`.
pub open spec fn test_command(
    name: Seq<char>,
    binary: Seq<char>,
    suite: RustTestSuite,
    ignored: bool,
    runner: Option<PlatformRunner>,
) -> TestCommandView {
    TestCommandView {
        program: command_program(runner, binary),
        args: command_prefix(runner, binary) + test_arguments(name, ignored),
        cwd: suite.cwd@,
        env: test_environment(suite.package@),
    }
}

fn push_arg(args: &mut Vec<String>, arg: &str)
    ensures
        texts(final(args)@) == texts(old(args)@).push(arg@),
{
    let ghost before = args@;
    args.push(arg.to_string());
    assert(texts(args@) =~= texts(before).push(arg@));
}

impl RustTestArtifact {
    /// The artifacts of the binaries of `binary_list`, in the order of the
    /// list. With a `platform_filter`, only the binaries built for that
    /// platform are taken.
    ///
    /// An artifact carries the metadata of the binary's package, which
    /// `graph` must know: the first binary whose package it does not know
    /// ends the work with an error. An artifact runs in the directory of its
    /// package's manifest. With a `path_mapper`, that directory and the
    /// binary's path are mapped from build time to run time.
    pub fn from_binary_list(
        graph: &PackageIndex,
        binary_list: BinaryList,
        path_mapper: Option<&PathMapper>,
        platform_filter: Option<BuildPlatform>,
    ) -> (artifacts: Result<Vec<Self>, FromMessagesError>)
        ensures
            match artifacts {
                Ok(artifacts) => artifacts_of(
                    views(binary_list.rust_binaries@),
                    graph.packages@,
                    match path_mapper {
                        Some(m) => Some(m@),
                        None => None,
                    },
                    platform_filter,
                ) == Ok::<Seq<RustTestArtifactView>, FromMessagesErrorView>(views(artifacts@)),
                Err(e) => artifacts_of(
                    views(binary_list.rust_binaries@),
                    graph.packages@,
                    match path_mapper {
                        Some(m) => Some(m@),
                        None => None,
                    },
                    platform_filter,
                ) == Err::<Seq<RustTestArtifactView>, FromMessagesErrorView>(e@),
            },
    {
        let mut binaries: Vec<RustTestArtifact> = Vec::new();
        let ghost all = views(binary_list.rust_binaries@);
        let ghost packages = graph.packages@;
        let ghost mapper = match path_mapper {
            Some(m) => Some(m@),
            None => None,
        };
        let rust_binaries = binary_list.rust_binaries;
        assert(views(binaries@) =~= Seq::<RustTestArtifactView>::empty());
        assert(all.take(0) =~= Seq::<RustTestBinaryView>::empty());
        for binary in it: rust_binaries
            invariant
                views(it.seq()) == all,
                all == views(binary_list.rust_binaries@),
                packages == graph.packages@,
                mapper == match path_mapper {
                    Some(m) => Some(m@),
                    None => None,
                },
                artifacts_of(
                    all.take(it.index() as int),
                    packages,
                    mapper,
                    platform_filter,
                ) == Ok::<Seq<RustTestArtifactView>, FromMessagesErrorView>(views(binaries@)),
        {
            let ghost grown = all.take(it.index() + 1);
            proof {
                assert(grown.drop_last() == all.take(it.index() as int));
                assert(grown.last() == binary@);
            }
            let passes = match platform_filter {
                Some(wanted) => wanted == binary.build_platform,
                None => true,
            };
            if passes {
                // Look up the package by its identifier.
                let package = match graph.metadata(binary.package_id.as_str()) {
                    Some(package) => package,
                    None => {
                        proof {
                            assert(passes_platform(platform_filter, grown.last().build_platform));
                            assert(artifact_of(grown.last(), packages, mapper) is Err);
                            assert(artifacts_of(grown, packages, mapper, platform_filter) is Err);
                            lemma_artifacts_of_error(
                                all,
                                packages,
                                mapper,
                                platform_filter,
                                it.index() + 1,
                            );
                        }
                        return Err(
                            FromMessagesError::PackageGraph { package_id: binary.package_id },
                        );
                    },
                };
                // Tests run in the directory that holds the manifest.
                let cwd = package.manifest_dir.clone();
                let (binary_path, cwd) = match path_mapper {
                    Some(m) => (m.map_binary(binary.path), m.map_cwd(cwd)),
                    None => (binary.path, cwd),
                };
                let artifact = RustTestArtifact {
                    binary_id: binary.id,
                    package: package.duplicate(),
                    binary_path,
                    binary_name: binary.name,
                    cwd,
                    build_platform: binary.build_platform,
                };
                let ghost before = binaries@;
                binaries.push(artifact);
                assert(views(binaries@) =~= views(before).push(artifact@));
            }
        }
        proof {
            assert(all.take(all.len() as int) == all);
        }
        Ok(binaries)
    }

    /// The invocation that makes this binary list its tests, one name to a
    /// line: the tests that are not marked ignored, or with `ignored` those
    /// that are. With a runner wrapper the wrapper is the program, and its
    /// fixed arguments and the binary's path come first. Nothing is added to
    /// the environment.
    pub fn list_command(&self, ignored: bool, runner: Option<&PlatformRunner>) -> (command:
        TestCommand)
        ensures
            command@ == list_command(
                *self,
                ignored,
                match runner {
                    Some(r) => Some(*r),
                    None => None,
                },
            ),
    {
        let program = program_for(runner, self.binary_path.as_str());
        let mut args = prefix_for(runner, self.binary_path.as_str());
        let ghost prefix = texts(args@);
        push_arg(&mut args, "--list");
        push_arg(&mut args, "--format");
        push_arg(&mut args, "terse");
        if ignored {
            push_arg(&mut args, "--ignored");
        }
        assert(texts(args@) =~= prefix + list_arguments(ignored));
        let env: Vec<(String, String)> = Vec::new();
        assert(text_pairs(env@) =~= Seq::<(Seq<char>, Seq<char>)>::empty());
        TestCommand { program, args, cwd: self.cwd.clone(), env }
    }

    /// The text by which a failed listing names the command that was tried:
    /// the command line of [`RustTestArtifact::list_command`], with the
    /// runner wrapper and its arguments where there is one.
    pub fn list_command_text(&self, ignored: bool, runner: Option<&PlatformRunner>) -> (text:
        String)
        ensures
            text@ == command_line(
                command_program(
                    match runner {
                        Some(r) => Some(*r),
                        None => None,
                    },
                    self.binary_path@,
                ),
                command_prefix(
                    match runner {
                        Some(r) => Some(*r),
                        None => None,
                    },
                    self.binary_path@,
                ) + list_arguments(ignored),
            ),
    {
        self.list_command(ignored, runner).command_line()
    }
}

impl<'a> TestInstance<'a> {
    /// The test `name` of the binary at `binary`.
    pub fn new(
        name: &'a str,
        binary: &'a str,
        bin_info: &'a RustTestSuite,
        test_info: &'a RustTestCaseSummary,
    ) -> (instance: Self)
        ensures
            instance.name == name,
            instance.binary == binary,
            instance.bin_info == bin_info,
            instance.test_info == test_info,
    {
        TestInstance { name, binary, bin_info, test_info }
    }

    /// The invocation that runs this one test.
    ///
    /// The runner wrapper for the suite's build platform, where
    /// `target_runner` has one, is the program, and its fixed arguments and
    /// the binary's path come first; else the binary is the program. Then
    /// come `--exact`, the test's name and `--nocapture`, and `--ignored` for
    /// a test that is marked ignored. The process runs in the suite's working
    /// directory, with the harness marker and the package's metadata in its
    /// environment.
    pub fn make_expression(&self, target_runner: &TargetRunner) -> (command: TestCommand)
        ensures
            command@ == test_command(
                self.name@,
                self.binary@,
                *self.bin_info,
                self.test_info.ignored,
                runner_for(*target_runner, self.bin_info.build_platform),
            ),
    {
        let platform_runner = target_runner.for_build_platform(self.bin_info.build_platform);
        let program = program_for(platform_runner, self.binary);
        let mut args = prefix_for(platform_runner, self.binary);
        let ghost prefix = texts(args@);
        push_arg(&mut args, "--exact");
        push_arg(&mut args, self.name);
        push_arg(&mut args, "--nocapture");
        if self.test_info.ignored {
            push_arg(&mut args, "--ignored");
        }
        assert(texts(args@) =~= prefix + test_arguments(self.name@, self.test_info.ignored));
        let env = environment_for(&self.bin_info.package);
        TestCommand { program, args, cwd: self.bin_info.cwd.clone(), env }
    }
}

} // verus!
