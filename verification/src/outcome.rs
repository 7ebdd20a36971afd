//! Outcome classification: what one build-tool run means for mutation
//! testing, and the supervision decisions for a running subprocess.

use vstd::prelude::*;

use crate::cargo::Phase;

verus! {

/// Why an invocation ran: on the unmodified tree, as the baseline inside
/// the staged build directory, or with one mutant applied.
#[derive(Clone, Copy, PartialEq, Eq, Structural, Debug)]
pub enum Scenario {
    SourceTree,
    Baseline,
    Mutant,
}

/// How one build-tool subprocess ended.
#[derive(Clone, Copy, PartialEq, Eq, Structural, Debug)]
pub enum CargoResult {
    Success,
    Failure,
    Timeout,
}

/// The completed run of one phase under one scenario: what ran, how it
/// ended, where its log lives, and how long it took.
pub struct Outcome {
    pub scenario: Scenario,
    pub phase: Phase,
    pub cargo_result: CargoResult,
    pub log_path: String,
    pub elapsed_millis: u64,
}

/// The label of an outcome in the mutation-testing taxonomy.
pub open spec fn spec_outcome_label(s: Scenario, p: Phase, r: CargoResult) -> Seq<char> {
    match s {
        Scenario::SourceTree | Scenario::Baseline => match r {
            CargoResult::Success => "ok"@,
            CargoResult::Failure => "FAILED"@,
            CargoResult::Timeout => "TIMEOUT"@,
        },
        Scenario::Mutant => match (p, r) {
            (Phase::Test, CargoResult::Failure) => "caught"@,
            (Phase::Test, CargoResult::Success) => "NOT CAUGHT"@,
            (Phase::Build, CargoResult::Success) => "build ok"@,
            (Phase::Check, CargoResult::Success) => "check ok"@,
            (Phase::Build, CargoResult::Failure) => "build failed"@,
            (Phase::Check, CargoResult::Failure) => "check failed"@,
            (_, CargoResult::Timeout) => "TIMEOUT"@,
        },
    }
}

/// Are an outcome's logs worth showing: everything but a caught mutant and
/// a successful non-mutant run.
pub open spec fn spec_should_show_logs(s: Scenario, p: Phase, r: CargoResult) -> bool {
    !(s == Scenario::Mutant && p == Phase::Test && r == CargoResult::Failure) && !(s
        != Scenario::Mutant && r == CargoResult::Success)
}

impl Outcome {
    pub fn new(
        scenario: Scenario,
        phase: Phase,
        cargo_result: CargoResult,
        log_path: String,
        elapsed_millis: u64,
    ) -> (r: Outcome)
        ensures
            r.scenario == scenario,
            r.phase == phase,
            r.cargo_result == cargo_result,
            r.log_path@ == log_path@,
            r.elapsed_millis == elapsed_millis,
    {
        Outcome { scenario, phase, cargo_result, log_path, elapsed_millis }
    }

    /// The label of this outcome for reporting: `caught` for a mutant whose
    /// test phase failed, `NOT CAUGHT` for one whose tests still passed,
    /// `ok`/`FAILED`/`TIMEOUT` for non-mutant runs, and the phase-specific
    /// labels for mutant check and build phases.
    pub fn label(&self) -> (r: &'static str)
        ensures
            r@ == spec_outcome_label(self.scenario, self.phase, self.cargo_result),
    {
        match self.scenario {
            Scenario::SourceTree | Scenario::Baseline => match self.cargo_result {
                CargoResult::Success => "ok",
                CargoResult::Failure => "FAILED",
                CargoResult::Timeout => "TIMEOUT",
            },
            Scenario::Mutant => match (self.phase, self.cargo_result) {
                (Phase::Test, CargoResult::Failure) => "caught",
                (Phase::Test, CargoResult::Success) => "NOT CAUGHT",
                (Phase::Build, CargoResult::Success) => "build ok",
                (Phase::Check, CargoResult::Success) => "check ok",
                (Phase::Build, CargoResult::Failure) => "build failed",
                (Phase::Check, CargoResult::Failure) => "check failed",
                (_, CargoResult::Timeout) => "TIMEOUT",
            },
        }
    }

    /// True iff this outcome's log should be printed: whenever the outcome
    /// is unexpected or informative, i.e. anything but a caught mutant or a
    /// clean non-mutant run.
    pub fn should_show_logs(&self) -> (r: bool)
        ensures
            r == spec_should_show_logs(self.scenario, self.phase, self.cargo_result),
    {
        let caught = matches!(self.scenario, Scenario::Mutant) && matches!(self.phase, Phase::Test)
            && matches!(self.cargo_result, CargoResult::Failure);
        let clean = !matches!(self.scenario, Scenario::Mutant) && matches!(
            self.cargo_result,
            CargoResult::Success,
        );
        !caught && !clean
    }
}

/// What the supervisor does next with a running subprocess.
#[derive(Clone, Copy, PartialEq, Eq, Structural, Debug)]
pub enum SuperviseStep {
    /// The interrupt flag is set: terminate the children and propagate the
    /// interruption, not a result.
    Interrupted,
    /// The child has exited with this result.
    Finished(CargoResult),
    /// The timeout has elapsed: terminate the process tree and record a
    /// timeout result.
    TimedOut,
    /// Still running within its time budget: tick the display and poll
    /// again after the poll interval.
    KeepWaiting,
}

/// The decision for one poll of a supervised subprocess.
pub open spec fn spec_supervise_step(
    interrupted: bool,
    poll: Option<CargoResult>,
    elapsed_millis: u64,
    timeout_millis: u64,
) -> SuperviseStep {
    if interrupted {
        SuperviseStep::Interrupted
    } else {
        match poll {
            Some(result) => SuperviseStep::Finished(result),
            None => if elapsed_millis >= timeout_millis {
                SuperviseStep::TimedOut
            } else {
                SuperviseStep::KeepWaiting
            },
        }
    }
}

/// Decides one iteration of the supervisor's poll loop from the interrupt
/// flag, the child's polled exit (if any), and the elapsed and allowed
/// times.
pub fn supervise_step(
    interrupted: bool,
    poll: Option<CargoResult>,
    elapsed_millis: u64,
    timeout_millis: u64,
) -> (r: SuperviseStep)
    ensures
        r == spec_supervise_step(interrupted, poll, elapsed_millis, timeout_millis),
{
    if interrupted {
        SuperviseStep::Interrupted
    } else {
        match poll {
            Some(result) => SuperviseStep::Finished(result),
            None => {
                if elapsed_millis >= timeout_millis {
                    SuperviseStep::TimedOut
                } else {
                    SuperviseStep::KeepWaiting
                }
            },
        }
    }
}

/// The exit mapping for a child that ran to completion: a success exit is
/// `Success`, any other exit (non-zero status, signal, termination) is
/// `Failure`.
pub fn interpret_exit(success: bool) -> (r: CargoResult)
    ensures
        r == if success {
            CargoResult::Success
        } else {
            CargoResult::Failure
        },
{
    if success {
        CargoResult::Success
    } else {
        CargoResult::Failure
    }
}

/// The extra environment of every build-tool subprocess: the computed
/// encoded compiler flags, and `INSTA_UPDATE=no` so that snapshot-updating
/// test harnesses do not accept mutant-altered output.
pub fn subprocess_env(rustflags: &str) -> (r: Vec<(String, String)>)
    ensures
        r@.len() == 2,
        r@[0].0@ == "CARGO_ENCODED_RUSTFLAGS"@ && r@[0].1@ == rustflags@,
        r@[1].0@ == "INSTA_UPDATE"@ && r@[1].1@ == "no"@,
{
    let mut r: Vec<(String, String)> = Vec::new();
    r.push((String::from_str("CARGO_ENCODED_RUSTFLAGS"), String::from_str(rustflags)));
    r.push((String::from_str("INSTA_UPDATE"), String::from_str("no")));
    r
}

} // verus!
