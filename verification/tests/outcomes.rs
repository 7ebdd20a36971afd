use cargo_mutants::cargo::Phase;
use cargo_mutants::console::{format_elapsed, format_mb, Console};
use cargo_mutants::outcome::{
    interpret_exit, subprocess_env, supervise_step, CargoResult, Outcome, Scenario, SuperviseStep,
};

fn outcome(s: Scenario, p: Phase, r: CargoResult) -> Outcome {
    Outcome::new(s, p, r, "log/1.log".to_string(), 42)
}

#[test]
fn outcome_labels_follow_the_table() {
    for s in [Scenario::SourceTree, Scenario::Baseline] {
        for p in [Phase::Check, Phase::Build, Phase::Test] {
            assert_eq!(outcome(s, p, CargoResult::Success).label(), "ok");
            assert_eq!(outcome(s, p, CargoResult::Failure).label(), "FAILED");
            assert_eq!(outcome(s, p, CargoResult::Timeout).label(), "TIMEOUT");
        }
    }
    assert_eq!(
        outcome(Scenario::Mutant, Phase::Test, CargoResult::Failure).label(),
        "caught"
    );
    assert_eq!(
        outcome(Scenario::Mutant, Phase::Test, CargoResult::Success).label(),
        "NOT CAUGHT"
    );
    assert_eq!(
        outcome(Scenario::Mutant, Phase::Build, CargoResult::Success).label(),
        "build ok"
    );
    assert_eq!(
        outcome(Scenario::Mutant, Phase::Check, CargoResult::Success).label(),
        "check ok"
    );
    assert_eq!(
        outcome(Scenario::Mutant, Phase::Build, CargoResult::Failure).label(),
        "build failed"
    );
    assert_eq!(
        outcome(Scenario::Mutant, Phase::Check, CargoResult::Failure).label(),
        "check failed"
    );
    for p in [Phase::Check, Phase::Build, Phase::Test] {
        assert_eq!(
            outcome(Scenario::Mutant, p, CargoResult::Timeout).label(),
            "TIMEOUT"
        );
    }
}

#[test]
fn logs_show_for_everything_but_caught_and_clean_runs() {
    assert!(!outcome(Scenario::Mutant, Phase::Test, CargoResult::Failure).should_show_logs());
    assert!(!outcome(Scenario::Baseline, Phase::Test, CargoResult::Success).should_show_logs());
    assert!(!outcome(Scenario::SourceTree, Phase::Check, CargoResult::Success).should_show_logs());
    assert!(outcome(Scenario::Mutant, Phase::Test, CargoResult::Success).should_show_logs());
    assert!(outcome(Scenario::Mutant, Phase::Build, CargoResult::Failure).should_show_logs());
    assert!(outcome(Scenario::Mutant, Phase::Build, CargoResult::Success).should_show_logs());
    assert!(outcome(Scenario::Baseline, Phase::Test, CargoResult::Failure).should_show_logs());
    assert!(outcome(Scenario::Baseline, Phase::Test, CargoResult::Timeout).should_show_logs());
}

#[test]
fn supervise_steps() {
    assert_eq!(
        supervise_step(true, Some(CargoResult::Success), 0, 1000),
        SuperviseStep::Interrupted
    );
    assert_eq!(
        supervise_step(false, Some(CargoResult::Failure), 0, 1000),
        SuperviseStep::Finished(CargoResult::Failure)
    );
    assert_eq!(
        supervise_step(false, None, 1000, 1000),
        SuperviseStep::TimedOut
    );
    assert_eq!(
        supervise_step(false, None, 999, 1000),
        SuperviseStep::KeepWaiting
    );
}

#[test]
fn exit_mapping() {
    assert_eq!(interpret_exit(true), CargoResult::Success);
    assert_eq!(interpret_exit(false), CargoResult::Failure);
}

#[test]
fn subprocess_environment_pins_flags_and_insta() {
    let env = subprocess_env("-D\u{1f}--cap-lints=allow");
    assert_eq!(env.len(), 2);
    assert_eq!(env[0].0, "CARGO_ENCODED_RUSTFLAGS");
    assert_eq!(env[0].1, "-D\u{1f}--cap-lints=allow");
    assert_eq!(env[1].0, "INSTA_UPDATE");
    assert_eq!(env[1].1, "no");
}

#[test]
fn console_builders() {
    let c = Console::new();
    assert!(!c.show_all_logs);
    assert!(c.show_times);
    let c2 = Console::new().show_all_logs(true);
    assert!(c2.show_all_logs);
    assert!(c2.show_times);
    let c3 = Console::new().show_times(false);
    assert!(!c3.show_times);
    assert!(!c3.show_all_logs);
}

#[test]
fn elapsed_and_megabyte_formatting() {
    assert_eq!(format_elapsed(2307), "2.307s");
    assert_eq!(format_elapsed(45), "0.045s");
    assert_eq!(format_elapsed(5), "0.005s");
    assert_eq!(format_elapsed(0), "0.000s");
    assert_eq!(format_elapsed(61999), "61.999s");
    assert_eq!(format_mb(317_000_000), "317 MB");
    assert_eq!(format_mb(999_999), "0 MB");
}
