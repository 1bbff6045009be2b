use nextest_runner::command::{
    environment_for, executable_path, extend_with, join_strings, prefix_for, program_for,
    TestCommand,
};
use nextest_runner::filter::{FilterMatch, MismatchReason, RustTestCaseSummary};
use nextest_runner::keymap::NameMap;
use nextest_runner::package::PackageInfo;
use nextest_runner::platform::BuildPlatform;
use nextest_runner::runner::{PlatformRunner, TargetRunner};
use nextest_runner::suite::{RustTestArtifact, RustTestSuite, TestInstance};
use nextest_runner::text::u64_to_decimal;

fn package() -> PackageInfo {
    PackageInfo {
        id: "pkg 1.2.3-beta.1 (path+file:///ws/pkg)".to_owned(),
        name: "pkg".to_owned(),
        manifest_dir: "/ws/pkg".to_owned(),
        version: "1.2.3-beta.1".to_owned(),
        version_major: 1,
        version_minor: 2,
        version_patch: 3,
        version_pre: "beta.1".to_owned(),
        authors: vec!["Ann <ann@example.com>".to_owned(), "Bob".to_owned()],
        description: Some("A package".to_owned()),
        homepage: None,
        license: Some("MIT".to_owned()),
        license_file: None,
        repository: Some("https://example.com/pkg".to_owned()),
        is_proc_macro: false,
    }
}

fn suite(platform: BuildPlatform) -> RustTestSuite {
    RustTestSuite {
        binary_id: "pkg".to_owned(),
        package: package(),
        binary_name: "pkg".to_owned(),
        cwd: "/run/ws/pkg".to_owned(),
        build_platform: platform,
        testcases: NameMap::new(),
    }
}

fn strings(items: &[&str]) -> Vec<String> {
    items.iter().map(|s| (*s).to_owned()).collect()
}

fn pairs(items: &[(&str, &str)]) -> Vec<(String, String)> {
    items.iter().map(|(k, v)| ((*k).to_owned(), (*v).to_owned())).collect()
}

fn expected_env() -> Vec<(String, String)> {
    pairs(&[
        ("NEXTEST", "1"),
        ("CARGO_MANIFEST_DIR", "/ws/pkg"),
        ("CARGO_PKG_VERSION", "1.2.3-beta.1"),
        ("CARGO_PKG_VERSION_MAJOR", "1"),
        ("CARGO_PKG_VERSION_MINOR", "2"),
        ("CARGO_PKG_VERSION_PATCH", "3"),
        ("CARGO_PKG_VERSION_PRE", "beta.1"),
        ("CARGO_PKG_AUTHORS", "Ann <ann@example.com>:Bob"),
        ("CARGO_PKG_NAME", "pkg"),
        ("CARGO_PKG_DESCRIPTION", "A package"),
        ("CARGO_PKG_HOMEPAGE", ""),
        ("CARGO_PKG_LICENSE", "MIT"),
        ("CARGO_PKG_LICENSE_FILE", ""),
        ("CARGO_PKG_REPOSITORY", "https://example.com/pkg"),
    ])
}

fn runners() -> TargetRunner {
    TargetRunner {
        host: None,
        target: Some(PlatformRunner {
            runner_binary: "qemu-aarch64".to_owned(),
            args: strings(&["-L", "/usr/aarch64"]),
        }),
    }
}

#[test]
fn a_test_is_run_by_its_exact_name() {
    let suite = suite(BuildPlatform::Target);
    let info = RustTestCaseSummary { ignored: false, filter_match: FilterMatch::Matches };
    let instance = TestInstance::new("tests::it_works", "/run/bin/pkg-1", &suite, &info);
    assert_eq!(
        instance.make_expression(&TargetRunner::empty()),
        TestCommand {
            program: "/run/bin/pkg-1".to_owned(),
            args: strings(&["--exact", "tests::it_works", "--nocapture"]),
            cwd: "/run/ws/pkg".to_owned(),
            env: expected_env(),
        }
    );
}

#[test]
fn an_ignored_test_is_asked_for() {
    let suite = suite(BuildPlatform::Target);
    let info = RustTestCaseSummary {
        ignored: true,
        filter_match: FilterMatch::Mismatch { reason: MismatchReason::Ignored },
    };
    let instance = TestInstance::new("slow", "pkg-1", &suite, &info);
    let command = instance.make_expression(&TargetRunner::empty());
    // A bare file name is taken from the working directory.
    assert_eq!(command.program, "./pkg-1");
    assert_eq!(command.args, strings(&["--exact", "slow", "--nocapture", "--ignored"]));
}

#[test]
fn a_runner_wrapper_comes_before_the_binary() {
    let info = RustTestCaseSummary { ignored: false, filter_match: FilterMatch::Matches };
    let target = suite(BuildPlatform::Target);
    let instance = TestInstance::new("t", "/run/bin/pkg-1", &target, &info);
    let command = instance.make_expression(&runners());
    assert_eq!(command.program, "qemu-aarch64");
    assert_eq!(
        command.args,
        strings(&["-L", "/usr/aarch64", "/run/bin/pkg-1", "--exact", "t", "--nocapture"])
    );
    assert_eq!(command.cwd, "/run/ws/pkg");
    assert_eq!(command.env, expected_env());

    // The host has no wrapper here.
    let host = suite(BuildPlatform::Host);
    let instance = TestInstance::new("t", "/run/bin/pkg-1", &host, &info);
    let command = instance.make_expression(&runners());
    assert_eq!(command.program, "/run/bin/pkg-1");
    assert_eq!(command.args, strings(&["--exact", "t", "--nocapture"]));
}

#[test]
fn the_runner_of_a_platform_is_found() {
    let runners = runners();
    assert_eq!(
        runners.for_build_platform(BuildPlatform::Target).map(|r| r.binary().as_str()),
        Some("qemu-aarch64")
    );
    assert_eq!(
        runners.for_build_platform(BuildPlatform::Target).map(|r| r.args().clone()),
        Some(strings(&["-L", "/usr/aarch64"]))
    );
    assert!(runners.for_build_platform(BuildPlatform::Host).is_none());
    assert!(TargetRunner::empty().for_build_platform(BuildPlatform::Target).is_none());
    assert!(TargetRunner::empty().for_build_platform(BuildPlatform::Host).is_none());
}

#[test]
fn a_binary_is_asked_for_its_tests() {
    let artifact = RustTestArtifact {
        binary_id: "pkg".to_owned(),
        package: package(),
        binary_path: "/run/bin/pkg-1".to_owned(),
        binary_name: "pkg".to_owned(),
        cwd: "/run/ws/pkg".to_owned(),
        build_platform: BuildPlatform::Target,
    };
    assert_eq!(
        artifact.list_command(false, None),
        TestCommand {
            program: "/run/bin/pkg-1".to_owned(),
            args: strings(&["--list", "--format", "terse"]),
            cwd: "/run/ws/pkg".to_owned(),
            env: Vec::new(),
        }
    );
    let runners = runners();
    assert_eq!(
        artifact.list_command(true, runners.for_build_platform(BuildPlatform::Target)),
        TestCommand {
            program: "qemu-aarch64".to_owned(),
            args: strings(&[
                "-L",
                "/usr/aarch64",
                "/run/bin/pkg-1",
                "--list",
                "--format",
                "terse",
                "--ignored"
            ]),
            cwd: "/run/ws/pkg".to_owned(),
            env: Vec::new(),
        }
    );
    assert_eq!(
        artifact.list_command_text(false, None),
        "'/run/bin/pkg-1 --list --format terse'"
    );
    assert_eq!(
        artifact.list_command_text(true, None),
        "'/run/bin/pkg-1 --list --format terse --ignored'"
    );
    // With a wrapper, the command that is tried is the wrapper's.
    assert_eq!(
        artifact.list_command_text(true, runners.for_build_platform(BuildPlatform::Target)),
        "'qemu-aarch64 -L /usr/aarch64 /run/bin/pkg-1 --list --format terse --ignored'"
    );
    assert_eq!(
        artifact.list_command(false, None).command_line(),
        artifact.list_command_text(false, None)
    );
}

#[test]
fn the_parts_of_a_command() {
    assert_eq!(program_for(None, "bin"), "./bin");
    assert_eq!(program_for(None, "dir/bin"), "./dir/bin");
    assert_eq!(program_for(None, "/abs/bin"), "/abs/bin");
    // A path that begins at the root is started as it is written.
    assert_eq!(program_for(None, "/abs//dir/../bin"), "/abs//dir/../bin");
    assert_eq!(executable_path("/"), "/");
    assert_eq!(executable_path(""), "./");
    assert_eq!(executable_path("\u{e9}/bin"), "./\u{e9}/bin");
    assert!(prefix_for(None, "/abs/bin").is_empty());
    let runner = PlatformRunner { runner_binary: "wine".to_owned(), args: Vec::new() };
    assert_eq!(program_for(Some(&runner), "bin"), "wine");
    assert_eq!(prefix_for(Some(&runner), "bin"), strings(&["bin"]));
    let mut args = strings(&["a"]);
    extend_with(&mut args, &strings(&["b", "c"]));
    assert_eq!(args, strings(&["a", "b", "c"]));
}

#[test]
fn the_environment_tells_a_test_about_its_package() {
    assert_eq!(environment_for(&package()), expected_env());
    let bare = PackageInfo {
        id: "x".to_owned(),
        name: "x".to_owned(),
        manifest_dir: "/x".to_owned(),
        version: "10.0.18446744073709551615".to_owned(),
        version_major: 10,
        version_minor: 0,
        version_patch: u64::MAX,
        version_pre: String::new(),
        authors: Vec::new(),
        description: None,
        homepage: None,
        license: None,
        license_file: None,
        repository: None,
        is_proc_macro: true,
    };
    assert_eq!(
        environment_for(&bare),
        pairs(&[
            ("NEXTEST", "1"),
            ("CARGO_MANIFEST_DIR", "/x"),
            ("CARGO_PKG_VERSION", "10.0.18446744073709551615"),
            ("CARGO_PKG_VERSION_MAJOR", "10"),
            ("CARGO_PKG_VERSION_MINOR", "0"),
            ("CARGO_PKG_VERSION_PATCH", "18446744073709551615"),
            ("CARGO_PKG_VERSION_PRE", ""),
            ("CARGO_PKG_AUTHORS", ""),
            ("CARGO_PKG_NAME", "x"),
            ("CARGO_PKG_DESCRIPTION", ""),
            ("CARGO_PKG_HOMEPAGE", ""),
            ("CARGO_PKG_LICENSE", ""),
            ("CARGO_PKG_LICENSE_FILE", ""),
            ("CARGO_PKG_REPOSITORY", ""),
        ])
    );
}

#[test]
fn numbers_and_lists_are_written_out() {
    assert_eq!(u64_to_decimal(0), "0");
    assert_eq!(u64_to_decimal(7), "7");
    assert_eq!(u64_to_decimal(10), "10");
    assert_eq!(u64_to_decimal(1234567890), "1234567890");
    assert_eq!(u64_to_decimal(u64::MAX), "18446744073709551615");
    assert_eq!(join_strings(&Vec::new(), ":"), "");
    assert_eq!(join_strings(&strings(&["a"]), ":"), "a");
    assert_eq!(join_strings(&strings(&["a", "b", "c"]), ":"), "a:b:c");
    assert_eq!(join_strings(&strings(&["", ""]), ", "), ", ");
}
