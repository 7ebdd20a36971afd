use cargo_mutants::cargo::cargo_argv;
use cargo_mutants::cargo::Phase;
use cargo_mutants::options::Options;

#[test]
fn generate_cargo_args_for_baseline_with_default_options() {
    let options = Options::default();
    assert_eq!(
        cargo_argv(None, Phase::Check, &options)[1..],
        ["check", "--tests", "--workspace"]
    );
    assert_eq!(
        cargo_argv(None, Phase::Build, &options)[1..],
        ["build", "--tests", "--workspace"]
    );
    assert_eq!(
        cargo_argv(None, Phase::Test, &options)[1..],
        ["test", "--workspace"]
    );
}

#[test]
fn generate_cargo_args_with_additional_cargo_test_args_and_package_name() {
    let mut options = Options::default();
    let package_name = "cargo-mutants-testdata-something".to_string();
    options
        .additional_cargo_test_args
        .extend(["--lib", "--no-fail-fast"].iter().map(|s| s.to_string()));
    assert_eq!(
        cargo_argv(Some(&package_name), Phase::Check, &options)[1..],
        ["check", "--tests", "--package", package_name.as_str()]
    );
    assert_eq!(
        cargo_argv(Some(&package_name), Phase::Build, &options)[1..],
        ["build", "--tests", "--package", package_name.as_str()]
    );
    assert_eq!(
        cargo_argv(Some(&package_name), Phase::Test, &options)[1..],
        [
            "test",
            "--package",
            package_name.as_str(),
            "--lib",
            "--no-fail-fast"
        ]
    );
}

#[test]
fn generate_cargo_args_with_additional_cargo_args_and_test_args() {
    let mut options = Options::default();
    options
        .additional_cargo_test_args
        .extend(["--lib", "--no-fail-fast"].iter().map(|s| s.to_string()));
    options
        .additional_cargo_args
        .extend(["--release".to_owned()]);
    assert_eq!(
        cargo_argv(None, Phase::Check, &options)[1..],
        ["check", "--tests", "--workspace", "--release"]
    );
    assert_eq!(
        cargo_argv(None, Phase::Build, &options)[1..],
        ["build", "--tests", "--workspace", "--release"]
    );
    assert_eq!(
        cargo_argv(None, Phase::Test, &options)[1..],
        [
            "test",
            "--workspace",
            "--release",
            "--lib",
            "--no-fail-fast"
        ]
    );
}

#[test]
fn argv_starts_with_the_build_tool_binary() {
    let options = Options::default();
    let argv = cargo_argv(None, Phase::Check, &options);
    assert_eq!(argv[0], "cargo");
    let mut named = Options::default();
    named.cargo_bin = "/usr/bin/cargo".to_string();
    let argv2 = cargo_argv(None, Phase::Test, &named);
    assert_eq!(argv2[0], "/usr/bin/cargo");
    assert_eq!(argv2[1], "test");
}

#[test]
fn workspace_and_package_are_mutually_exclusive() {
    let options = Options::default();
    let ws = cargo_argv(None, Phase::Test, &options);
    assert!(ws.iter().any(|a| a == "--workspace"));
    assert!(!ws.iter().any(|a| a == "--package"));
    let name = "demo".to_string();
    let pkg = cargo_argv(Some(&name), Phase::Test, &options);
    assert!(pkg.iter().any(|a| a == "--package"));
    assert!(!pkg.iter().any(|a| a == "--workspace"));
}

#[test]
fn phase_names() {
    assert_eq!(Phase::Check.name(), "check");
    assert_eq!(Phase::Build.name(), "build");
    assert_eq!(Phase::Test.name(), "test");
    assert!(Phase::Check < Phase::Build && Phase::Build < Phase::Test);
}
