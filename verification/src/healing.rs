//! Self-healing runs: when a program fails in its environment, the tool
//! looks for a missing shared library and installs the package that
//! provides it, or asks a local language model for a diagnosis and, with
//! the user's consent, installs the package or runs the command it
//! proposes; then it starts the program again, at most three times.
//!
//! The decisions are a state machine: the caller performs each action
//! (starting the sandbox, querying the package manager or the model,
//! asking the user) and hands back what came of it as the next event.
use vstd::prelude::*;
use crate::text::same_text;
use crate::pkgtools::{missing_library, parse_missing_library, PackageManager};
use crate::sandbox::{mentions_steam, mentions_steam_spec};

verus! {

/// How many times a failed program is started again.
pub open spec fn max_retries() -> nat {
    3
}

/// The model's diagnosis of a failure.
pub struct AiDiagnosis {
    pub explanation: String,
    pub fix_action: String,
    pub package_name: Option<String>,
    pub command_to_run: Option<String>,
}

pub struct AiDiagnosisV {
    pub explanation: Seq<char>,
    pub fix_action: Seq<char>,
    pub package_name: Option<Seq<char>>,
    pub command_to_run: Option<Seq<char>>,
}

impl View for AiDiagnosis {
    type V = AiDiagnosisV;

    open spec fn view(&self) -> AiDiagnosisV {
        AiDiagnosisV {
            explanation: self.explanation@,
            fix_action: self.fix_action@,
            package_name: self.package_name.deep_view(),
            command_to_run: self.command_to_run.deep_view(),
        }
    }
}

/// What a run waits for.
pub enum RunPhase {
    /// The program is (re)started.
    Launching,
    /// A package that provides the missing library is looked up.
    AwaitPackage { exit_code: i32 },
    /// The model diagnoses the failure.
    AwaitDiagnosis { exit_code: i32 },
    /// The user is asked whether to install the proposed package.
    AwaitInstallConsent { exit_code: i32, package: String },
    /// The user is asked whether to run the proposed command.
    AwaitCommandConsent { exit_code: i32, command: String },
    /// A package is installed; `required` when its failure ends the run.
    AwaitInstall { exit_code: i32, required: bool },
    /// The proposed command runs.
    AwaitCommand { exit_code: i32 },
    /// The run is over.
    Done,
}

pub enum RunPhaseV {
    Launching,
    AwaitPackage { exit_code: i32 },
    AwaitDiagnosis { exit_code: i32 },
    AwaitInstallConsent { exit_code: i32, package: Seq<char> },
    AwaitCommandConsent { exit_code: i32, command: Seq<char> },
    AwaitInstall { exit_code: i32, required: bool },
    AwaitCommand { exit_code: i32 },
    Done,
}

impl View for RunPhase {
    type V = RunPhaseV;

    open spec fn view(&self) -> RunPhaseV {
        match self {
            RunPhase::Launching => RunPhaseV::Launching,
            RunPhase::AwaitPackage { exit_code } => RunPhaseV::AwaitPackage { exit_code: *exit_code },
            RunPhase::AwaitDiagnosis { exit_code } => RunPhaseV::AwaitDiagnosis {
                exit_code: *exit_code,
            },
            RunPhase::AwaitInstallConsent { exit_code, package } =>
                RunPhaseV::AwaitInstallConsent { exit_code: *exit_code, package: package@ },
            RunPhase::AwaitCommandConsent { exit_code, command } =>
                RunPhaseV::AwaitCommandConsent { exit_code: *exit_code, command: command@ },
            RunPhase::AwaitInstall { exit_code, required } => RunPhaseV::AwaitInstall {
                exit_code: *exit_code,
                required: *required,
            },
            RunPhase::AwaitCommand { exit_code } => RunPhaseV::AwaitCommand {
                exit_code: *exit_code,
            },
            RunPhase::Done => RunPhaseV::Done,
        }
    }
}

/// The state of a run: how often the program was started again, whether
/// it is a Steam program (whose libraries are 32-bit), and what it waits
/// for.
pub struct RunState {
    retries: u32,
    is_steam: bool,
    phase: RunPhase,
}

pub struct RunStateV {
    pub retries: nat,
    pub is_steam: bool,
    pub phase: RunPhaseV,
}

impl View for RunState {
    type V = RunStateV;

    closed spec fn view(&self) -> RunStateV {
        RunStateV { retries: self.retries as nat, is_steam: self.is_steam, phase: self.phase@ }
    }
}

/// What came of the last action.
pub enum RunEvent {
    /// The program ended with `exit_code`, having written `stderr`.
    Exited { exit_code: i32, stderr: String },
    /// The package that provides the missing library, if one was found.
    PackageFound(Option<String>),
    /// The model's diagnosis, if one could be had.
    Diagnosed(Option<AiDiagnosis>),
    /// The user's answer.
    Consent(bool),
    /// Whether the installation succeeded.
    InstallDone(bool),
    /// Whether the command succeeded.
    CommandDone(bool),
}

pub enum RunEventV {
    Exited { exit_code: i32, stderr: Seq<char> },
    PackageFound(Option<Seq<char>>),
    Diagnosed(Option<AiDiagnosisV>),
    Consent(bool),
    InstallDone(bool),
    CommandDone(bool),
}

impl View for RunEvent {
    type V = RunEventV;

    open spec fn view(&self) -> RunEventV {
        match self {
            RunEvent::Exited { exit_code, stderr } => RunEventV::Exited {
                exit_code: *exit_code,
                stderr: stderr@,
            },
            RunEvent::PackageFound(p) => RunEventV::PackageFound(p.deep_view()),
            RunEvent::Diagnosed(d) => RunEventV::Diagnosed(
                match d {
                    Some(x) => Some(x@),
                    None => None,
                },
            ),
            RunEvent::Consent(b) => RunEventV::Consent(*b),
            RunEvent::InstallDone(b) => RunEventV::InstallDone(*b),
            RunEvent::CommandDone(b) => RunEventV::CommandDone(*b),
        }
    }
}

/// What the caller does next.
pub enum RunAction {
    /// Start the program in the sandbox.
    Launch,
    /// Look up the package that provides `library`.
    FindPackage { library: String, is_steam: bool },
    /// Ask the model to diagnose the failure.
    Diagnose,
    /// Ask the user whether to install `package`.
    AskInstall { package: String },
    /// Ask the user whether to run `command`.
    AskCommand { command: String },
    /// Install `package` into the environment; when `required`, a failure
    /// ends the run with that failure.
    Install { package: String, required: bool },
    /// Run `command` on the host.
    RunCommand { command: String },
    /// The run ends with `exit_code`; `retry_limit` names the missing
    /// library when the run ends because no retry is left.
    Finish { exit_code: i32, retry_limit: Option<String> },
    /// A required installation failed: the run ends with its failure.
    Fail,
    /// The event does not answer the action the run waits for; nothing
    /// changed.
    Unexpected,
}

pub enum RunActionV {
    Launch,
    FindPackage { library: Seq<char>, is_steam: bool },
    Diagnose,
    AskInstall { package: Seq<char> },
    AskCommand { command: Seq<char> },
    Install { package: Seq<char>, required: bool },
    RunCommand { command: Seq<char> },
    Finish { exit_code: i32, retry_limit: Option<Seq<char>> },
    Fail,
    Unexpected,
}

impl View for RunAction {
    type V = RunActionV;

    open spec fn view(&self) -> RunActionV {
        match self {
            RunAction::Launch => RunActionV::Launch,
            RunAction::FindPackage { library, is_steam } => RunActionV::FindPackage {
                library: library@,
                is_steam: *is_steam,
            },
            RunAction::Diagnose => RunActionV::Diagnose,
            RunAction::AskInstall { package } => RunActionV::AskInstall { package: package@ },
            RunAction::AskCommand { command } => RunActionV::AskCommand { command: command@ },
            RunAction::Install { package, required } => RunActionV::Install {
                package: package@,
                required: *required,
            },
            RunAction::RunCommand { command } => RunActionV::RunCommand { command: command@ },
            RunAction::Finish { exit_code, retry_limit } => RunActionV::Finish {
                exit_code: *exit_code,
                retry_limit: retry_limit.deep_view(),
            },
            RunAction::Fail => RunActionV::Fail,
            RunAction::Unexpected => RunActionV::Unexpected,
        }
    }
}

/// The retry count stays within its limit, and a run that is about to
/// start the program again has a retry left.
pub open spec fn run_inv(s: RunStateV) -> bool {
    &&& s.retries <= max_retries()
    &&& match s.phase {
        RunPhaseV::AwaitPackage { .. } | RunPhaseV::AwaitInstallConsent { .. }
        | RunPhaseV::AwaitCommandConsent { .. } | RunPhaseV::AwaitInstall { .. }
        | RunPhaseV::AwaitCommand { .. } => s.retries < max_retries(),
        _ => true,
    }
}

impl RunState {
    #[verifier::type_invariant]
    spec fn well_formed(self) -> bool {
        run_inv(self@)
    }
}

pub open spec fn with_phase(s: RunStateV, p: RunPhaseV) -> RunStateV {
    RunStateV { retries: s.retries, is_steam: s.is_steam, phase: p }
}

pub open spec fn finish(s: RunStateV, code: i32) -> (RunStateV, RunActionV) {
    (with_phase(s, RunPhaseV::Done), RunActionV::Finish { exit_code: code, retry_limit: None })
}

pub open spec fn relaunch(s: RunStateV) -> (RunStateV, RunActionV) {
    (
        RunStateV { retries: s.retries + 1, is_steam: s.is_steam, phase: RunPhaseV::Launching },
        RunActionV::Launch,
    )
}

/// The decision that follows a diagnosis: with a retry left, ask to
/// install the proposed package or to run the proposed command; else end.
pub open spec fn after_diagnosis(s: RunStateV, code: i32, d: AiDiagnosisV) -> (
    RunStateV,
    RunActionV,
) {
    if s.retries < max_retries() {
        if d.fix_action == "install_container_package"@ && d.package_name is Some {
            (
                with_phase(
                    s,
                    RunPhaseV::AwaitInstallConsent { exit_code: code, package: d.package_name->0 },
                ),
                RunActionV::AskInstall { package: d.package_name->0 },
            )
        } else if d.fix_action == "run_command"@ && d.command_to_run is Some {
            (
                with_phase(
                    s,
                    RunPhaseV::AwaitCommandConsent { exit_code: code, command: d.command_to_run->0 },
                ),
                RunActionV::AskCommand { command: d.command_to_run->0 },
            )
        } else {
            finish(s, code)
        }
    } else {
        finish(s, code)
    }
}

/// The next state and action of a run after event `e`.
pub open spec fn run_next(s: RunStateV, e: RunEventV) -> (RunStateV, RunActionV) {
    match s.phase {
        RunPhaseV::Launching => match e {
            RunEventV::Exited { exit_code, stderr } => if exit_code == 0 {
                finish(s, exit_code)
            } else {
                match missing_library(stderr) {
                    Some(lib) => if s.retries >= max_retries() {
                        (
                            with_phase(s, RunPhaseV::Done),
                            RunActionV::Finish { exit_code, retry_limit: Some(lib) },
                        )
                    } else {
                        (
                            with_phase(s, RunPhaseV::AwaitPackage { exit_code }),
                            RunActionV::FindPackage { library: lib, is_steam: s.is_steam },
                        )
                    },
                    None => (
                        with_phase(s, RunPhaseV::AwaitDiagnosis { exit_code }),
                        RunActionV::Diagnose,
                    ),
                }
            },
            _ => (s, RunActionV::Unexpected),
        },
        RunPhaseV::AwaitPackage { exit_code } => match e {
            RunEventV::PackageFound(Some(p)) => (
                with_phase(s, RunPhaseV::AwaitInstall { exit_code, required: true }),
                RunActionV::Install { package: p, required: true },
            ),
            RunEventV::PackageFound(None) => (
                with_phase(s, RunPhaseV::AwaitDiagnosis { exit_code }),
                RunActionV::Diagnose,
            ),
            _ => (s, RunActionV::Unexpected),
        },
        RunPhaseV::AwaitDiagnosis { exit_code } => match e {
            RunEventV::Diagnosed(Some(d)) => after_diagnosis(s, exit_code, d),
            RunEventV::Diagnosed(None) => finish(s, exit_code),
            _ => (s, RunActionV::Unexpected),
        },
        RunPhaseV::AwaitInstallConsent { exit_code, package } => match e {
            RunEventV::Consent(true) => (
                with_phase(s, RunPhaseV::AwaitInstall { exit_code, required: false }),
                RunActionV::Install { package, required: false },
            ),
            RunEventV::Consent(false) => finish(s, exit_code),
            _ => (s, RunActionV::Unexpected),
        },
        RunPhaseV::AwaitCommandConsent { exit_code, command } => match e {
            RunEventV::Consent(true) => (
                with_phase(s, RunPhaseV::AwaitCommand { exit_code }),
                RunActionV::RunCommand { command },
            ),
            RunEventV::Consent(false) => finish(s, exit_code),
            _ => (s, RunActionV::Unexpected),
        },
        RunPhaseV::AwaitInstall { exit_code, required } => match e {
            RunEventV::InstallDone(true) => relaunch(s),
            RunEventV::InstallDone(false) => if required {
                (with_phase(s, RunPhaseV::Done), RunActionV::Fail)
            } else {
                finish(s, exit_code)
            },
            _ => (s, RunActionV::Unexpected),
        },
        RunPhaseV::AwaitCommand { exit_code } => match e {
            RunEventV::CommandDone(true) => relaunch(s),
            RunEventV::CommandDone(false) => finish(s, exit_code),
            _ => (s, RunActionV::Unexpected),
        },
        RunPhaseV::Done => (s, RunActionV::Unexpected),
    }
}

/// The start of a run of `command` with `args`: no retry used, and the
/// program is started.
pub open spec fn run_start(command: Seq<char>, args: Seq<Seq<char>>) -> (RunStateV, RunActionV) {
    (
        RunStateV {
            retries: 0,
            is_steam: mentions_steam_spec(command, args),
            phase: RunPhaseV::Launching,
        },
        RunActionV::Launch,
    )
}

/// Starts a run of `command` with `args`.
pub fn start_run(command: &str, args: &Vec<String>) -> (r: (RunState, RunAction))
    ensures
        (r.0@, r.1@) == run_start(command@, args.deep_view()),
{
    let is_steam = mentions_steam(command, args);
    (RunState { retries: 0, is_steam, phase: RunPhase::Launching }, RunAction::Launch)
}

/// How many times the program was started again so far.
pub fn retries_used(s: &RunState) -> (r: u32)
    ensures
        r as nat == s@.retries,
{
    s.retries
}

/// Whether the run is over.
pub fn run_finished(s: &RunState) -> (r: bool)
    ensures
        r == (s@.phase is Done),
{
    match s.phase {
        RunPhase::Done => true,
        _ => false,
    }
}

/// Advances a run by the event `e`.
pub fn run_step(s: RunState, e: RunEvent) -> (r: (RunState, RunAction))
    ensures
        (r.0@, r.1@) == run_next(s@, e@),
{
    proof {
        use_type_invariant(&s);
    }
    let retries = s.retries;
    let is_steam = s.is_steam;
    match s.phase {
        RunPhase::Launching => match e {
            RunEvent::Exited { exit_code, stderr } => {
                if exit_code == 0 {
                    return (
                        RunState { retries, is_steam, phase: RunPhase::Done },
                        RunAction::Finish { exit_code, retry_limit: None },
                    );
                }
                match parse_missing_library(stderr.as_str()) {
                    Some(lib) => {
                        if retries >= 3 {
                            (
                                RunState { retries, is_steam, phase: RunPhase::Done },
                                RunAction::Finish { exit_code, retry_limit: Some(lib) },
                            )
                        } else {
                            (
                                RunState {
                                    retries,
                                    is_steam,
                                    phase: RunPhase::AwaitPackage { exit_code },
                                },
                                RunAction::FindPackage { library: lib, is_steam },
                            )
                        }
                    },
                    None => (
                        RunState { retries, is_steam, phase: RunPhase::AwaitDiagnosis { exit_code } },
                        RunAction::Diagnose,
                    ),
                }
            },
            _ => (RunState { retries, is_steam, phase: RunPhase::Launching }, RunAction::Unexpected),
        },
        RunPhase::AwaitPackage { exit_code } => match e {
            RunEvent::PackageFound(Some(p)) => (
                RunState {
                    retries,
                    is_steam,
                    phase: RunPhase::AwaitInstall { exit_code, required: true },
                },
                RunAction::Install { package: p, required: true },
            ),
            RunEvent::PackageFound(None) => (
                RunState { retries, is_steam, phase: RunPhase::AwaitDiagnosis { exit_code } },
                RunAction::Diagnose,
            ),
            _ => (
                RunState { retries, is_steam, phase: RunPhase::AwaitPackage { exit_code } },
                RunAction::Unexpected,
            ),
        },
        RunPhase::AwaitDiagnosis { exit_code } => match e {
            RunEvent::Diagnosed(Some(d)) => {
                if retries < 3 {
                    let wants_install = same_text(
                        d.fix_action.as_str(),
                        "install_container_package",
                    );
                    let wants_command = same_text(d.fix_action.as_str(), "run_command");
                    if wants_install && d.package_name.is_some() {
                        let p = d.package_name.unwrap();
                        return (
                            RunState {
                                retries,
                                is_steam,
                                phase: RunPhase::AwaitInstallConsent {
                                    exit_code,
                                    package: p.clone(),
                                },
                            },
                            RunAction::AskInstall { package: p },
                        );
                    } else if wants_command && d.command_to_run.is_some() {
                        let c = d.command_to_run.unwrap();
                        return (
                            RunState {
                                retries,
                                is_steam,
                                phase: RunPhase::AwaitCommandConsent {
                                    exit_code,
                                    command: c.clone(),
                                },
                            },
                            RunAction::AskCommand { command: c },
                        );
                    }
                }
                (
                    RunState { retries, is_steam, phase: RunPhase::Done },
                    RunAction::Finish { exit_code, retry_limit: None },
                )
            },
            RunEvent::Diagnosed(None) => (
                RunState { retries, is_steam, phase: RunPhase::Done },
                RunAction::Finish { exit_code, retry_limit: None },
            ),
            _ => (
                RunState { retries, is_steam, phase: RunPhase::AwaitDiagnosis { exit_code } },
                RunAction::Unexpected,
            ),
        },
        RunPhase::AwaitInstallConsent { exit_code, package } => match e {
            RunEvent::Consent(true) => (
                RunState {
                    retries,
                    is_steam,
                    phase: RunPhase::AwaitInstall { exit_code, required: false },
                },
                RunAction::Install { package, required: false },
            ),
            RunEvent::Consent(false) => (
                RunState { retries, is_steam, phase: RunPhase::Done },
                RunAction::Finish { exit_code, retry_limit: None },
            ),
            _ => (
                RunState {
                    retries,
                    is_steam,
                    phase: RunPhase::AwaitInstallConsent { exit_code, package },
                },
                RunAction::Unexpected,
            ),
        },
        RunPhase::AwaitCommandConsent { exit_code, command } => match e {
            RunEvent::Consent(true) => (
                RunState { retries, is_steam, phase: RunPhase::AwaitCommand { exit_code } },
                RunAction::RunCommand { command },
            ),
            RunEvent::Consent(false) => (
                RunState { retries, is_steam, phase: RunPhase::Done },
                RunAction::Finish { exit_code, retry_limit: None },
            ),
            _ => (
                RunState {
                    retries,
                    is_steam,
                    phase: RunPhase::AwaitCommandConsent { exit_code, command },
                },
                RunAction::Unexpected,
            ),
        },
        RunPhase::AwaitInstall { exit_code, required } => match e {
            RunEvent::InstallDone(true) => (
                RunState { retries: retries + 1, is_steam, phase: RunPhase::Launching },
                RunAction::Launch,
            ),
            RunEvent::InstallDone(false) => if required {
                (RunState { retries, is_steam, phase: RunPhase::Done }, RunAction::Fail)
            } else {
                (
                    RunState { retries, is_steam, phase: RunPhase::Done },
                    RunAction::Finish { exit_code, retry_limit: None },
                )
            },
            _ => (
                RunState {
                    retries,
                    is_steam,
                    phase: RunPhase::AwaitInstall { exit_code, required },
                },
                RunAction::Unexpected,
            ),
        },
        RunPhase::AwaitCommand { exit_code } => match e {
            RunEvent::CommandDone(true) => (
                RunState { retries: retries + 1, is_steam, phase: RunPhase::Launching },
                RunAction::Launch,
            ),
            RunEvent::CommandDone(false) => (
                RunState { retries, is_steam, phase: RunPhase::Done },
                RunAction::Finish { exit_code, retry_limit: None },
            ),
            _ => (
                RunState { retries, is_steam, phase: RunPhase::AwaitCommand { exit_code } },
                RunAction::Unexpected,
            ),
        },
        RunPhase::Done => (RunState { retries, is_steam, phase: RunPhase::Done }, RunAction::Unexpected),
    }
}

/// Every step keeps the retry bound.
pub proof fn lemma_run_inv_preserved(s: RunStateV, e: RunEventV)
    requires
        run_inv(s),
    ensures
        run_inv(run_next(s, e).0),
{
}

/// The program is started again only as a retry, which counts; retries
/// never go back.
pub proof fn lemma_relaunch_counts(s: RunStateV, e: RunEventV)
    requires
        run_inv(s),
    ensures
        run_next(s, e).1 is Launch ==> run_next(s, e).0.retries == s.retries + 1,
        !(run_next(s, e).1 is Launch) ==> run_next(s, e).0.retries == s.retries,
{
}

/// The number of times the program is started again over a sequence of
/// events.
pub open spec fn relaunches(s: RunStateV, es: Seq<RunEventV>) -> nat
    decreases es.len(),
{
    if es.len() == 0 {
        0
    } else {
        let (s2, a) = run_next(s, es[0]);
        (if a is Launch {
            1nat
        } else {
            0nat
        }) + relaunches(s2, es.drop_first())
    }
}

/// Whatever happens, a failed program is started again at most three
/// times in one run.
pub proof fn lemma_at_most_three_relaunches(s: RunStateV, es: Seq<RunEventV>)
    requires
        run_inv(s),
    ensures
        s.retries + relaunches(s, es) <= max_retries(),
    decreases es.len(),
{
    if es.len() > 0 {
        let (s2, a) = run_next(s, es[0]);
        lemma_run_inv_preserved(s, es[0]);
        lemma_relaunch_counts(s, es[0]);
        lemma_at_most_three_relaunches(s2, es.drop_first());
    }
}

/// A run that starts from `run_start` restarts the program at most three
/// times, whatever events follow.
pub proof fn lemma_run_restarts_bounded(
    command: Seq<char>,
    args: Seq<Seq<char>>,
    es: Seq<RunEventV>,
)
    ensures
        relaunches(run_start(command, args).0, es) <= max_retries(),
{
    lemma_at_most_three_relaunches(run_start(command, args).0, es);
}

/// A program that ends successfully ends the run with its exit code 0,
/// whatever it wrote.
pub proof fn lemma_success_finishes(s: RunStateV, stderr: Seq<char>)
    requires
        s.phase is Launching,
    ensures
        run_next(s, RunEventV::Exited { exit_code: 0, stderr }).1 == (RunActionV::Finish {
            exit_code: 0,
            retry_limit: None,
        }),
        run_next(s, RunEventV::Exited { exit_code: 0, stderr }).0.phase is Done,
{
}

/// Nothing is installed or run without an answer: a proposal of the
/// model leads to the installation or the command only after the user's
/// consent.
pub proof fn lemma_model_fix_needs_consent(s: RunStateV, e: RunEventV)
    requires
        s.phase is AwaitDiagnosis,
    ensures
        !(run_next(s, e).1 is Install),
        !(run_next(s, e).1 is RunCommand),
{
}

/// A package proposed by the model is installed only right after the
/// user agreed to install that package, and a proposed command runs only
/// right after the user agreed to run that command.
pub proof fn lemma_fix_follows_consent(s: RunStateV, e: RunEventV)
    ensures
        run_next(s, e).1 is Install && !run_next(s, e).1->Install_required ==> (e
            == RunEventV::Consent(true) && s.phase is AwaitInstallConsent
            && s.phase->AwaitInstallConsent_package == run_next(s, e).1->Install_package),
        run_next(s, e).1 is RunCommand ==> (e == RunEventV::Consent(true)
            && s.phase is AwaitCommandConsent && s.phase->AwaitCommandConsent_command == run_next(
            s,
            e,
        ).1->RunCommand_command),
{
}

/// When no package provides the missing library, the failure goes to the
/// model for a diagnosis: the run waits for it with the same exit code,
/// the retries and the Steam mark unchanged.
pub proof fn lemma_no_package_asks_model(s: RunStateV, exit_code: i32)
    requires
        s.phase == (RunPhaseV::AwaitPackage { exit_code }),
    ensures
        run_next(s, RunEventV::PackageFound(None)) == (
            RunStateV {
                retries: s.retries,
                is_steam: s.is_steam,
                phase: RunPhaseV::AwaitDiagnosis { exit_code },
            },
            RunActionV::Diagnose,
        ),
{
}

/// A run ends with the program's exit code only when the program
/// succeeded, when the retries are used up, after a diagnosis was
/// attempted, or after the user refused or a fix failed; never while a
/// package for a missing library is being looked up.
pub proof fn lemma_finish_needs_reason(s: RunStateV, e: RunEventV)
    requires
        run_next(s, e).1 is Finish,
    ensures
        !(s.phase is AwaitPackage),
        s.phase is Launching ==> (e matches RunEventV::Exited { exit_code, stderr } && (exit_code
            == 0 || (missing_library(stderr) is Some && s.retries >= 3))),
        s.phase is Launching || s.phase is AwaitDiagnosis || e == RunEventV::Consent(false) || e
            == RunEventV::InstallDone(false) || e == RunEventV::CommandDone(false),
{
}

/// An event that does not answer what the run waits for changes nothing.
pub proof fn lemma_unexpected_changes_nothing(s: RunStateV, e: RunEventV)
    ensures
        run_next(s, e).1 is Unexpected ==> run_next(s, e).0 == s,
{
}

/// The exit code that a phase carries: that of the failed start it
/// handles.
pub open spec fn phase_exit_code(p: RunPhaseV) -> Option<i32> {
    match p {
        RunPhaseV::AwaitPackage { exit_code } => Some(exit_code),
        RunPhaseV::AwaitDiagnosis { exit_code } => Some(exit_code),
        RunPhaseV::AwaitInstallConsent { exit_code, .. } => Some(exit_code),
        RunPhaseV::AwaitCommandConsent { exit_code, .. } => Some(exit_code),
        RunPhaseV::AwaitInstall { exit_code, .. } => Some(exit_code),
        RunPhaseV::AwaitCommand { exit_code } => Some(exit_code),
        _ => None,
    }
}

/// A run ends with the exit code of the program's last start: the one
/// just reported, or the one that the pending recovery carries.
pub proof fn lemma_finish_reports_last_exit(s: RunStateV, e: RunEventV)
    ensures
        run_next(s, e).1 matches RunActionV::Finish { exit_code, .. } ==> (match e {
            RunEventV::Exited { exit_code: c, .. } => s.phase is Launching && c == exit_code,
            _ => phase_exit_code(s.phase) == Some(exit_code),
        }),
        phase_exit_code(s.phase) is Some && !(run_next(s, e).1 is Launch) ==> (phase_exit_code(
            run_next(s, e).0.phase,
        ) is Some ==> phase_exit_code(run_next(s, e).0.phase) == phase_exit_code(s.phase)),
{
}

/// The text of the request to the model: the failed command and its error
/// output, with a description of the expected JSON answer for the package
/// manager in use.
pub open spec fn prompt_text(
    command: Seq<char>,
    stderr: Seq<char>,
    pm_package: Seq<char>,
    pm_example: Seq<char>,
) -> Seq<char> {
    prompt_head() + command + prompt_after_command() + stderr + prompt_after_stderr() + pm_package
        + prompt_after_package() + pm_example + prompt_tail()
}

pub open spec fn prompt_head() -> Seq<char> {
    "Sen bir Linux ve Bubblewrap sandbox uzmanı yapay zeka asistanısın. İzole ortamda çalıştırılan '"@
}

pub open spec fn prompt_after_command() -> Seq<char> {
    "' komutu şu hata çıktısıyla sonlandı:\n\n"@
}

pub open spec fn prompt_after_stderr() -> Seq<char> {
    "\n\nLütfen bu hatayı analiz et ve çözmek için ne yapılması gerektiğini bul. Cevabını MUTLAKA aşağıdaki JSON formatında ver. JSON dışında hiçbir metin, markdown veya açıklama yazma.\n\nFormat:\n{\n\"explanation\": \"Hatanın kısa Türkçe açıklaması (maksimum 2 cümle).\",\n\"fix_action\": \"install_container_package\" veya \"run_command\" veya \"none\",\n\"package_name\": \"Eğer kurulması gereken bir "@
}

pub open spec fn prompt_after_package() -> Seq<char> {
    " varsa yaz, yoksa null\",\n\"command_to_run\": \"Eğer çalıştırılması gereken bir komut varsa (örn: "@
}

pub open spec fn prompt_tail() -> Seq<char> {
    " veya mkdir ...), yoksa null\"\n}"@
}

/// How the request names a package of the package manager.
pub open spec fn pm_package_phrase(pm: PackageManager) -> Seq<char> {
    match pm {
        PackageManager::Dnf => "DNF paket adı"@,
        PackageManager::Apt => "APT (deb) paket adı"@,
        PackageManager::Pacman => "pacman paket adı"@,
    }
}

/// The install command that the request gives as an example.
pub open spec fn pm_command_example(pm: PackageManager) -> Seq<char> {
    match pm {
        PackageManager::Dnf => "sudo dnf install ..."@,
        PackageManager::Apt => "sudo apt-get install ..."@,
        PackageManager::Pacman => "sudo pacman -S ..."@,
    }
}

/// Writes the request that asks the model to diagnose the failure of
/// `command`, which wrote `stderr`, on a host that uses `pm`.
pub fn diagnosis_prompt(command: &str, stderr: &str, pm: PackageManager) -> (r: String)
    ensures
        r@ == prompt_text(command@, stderr@, pm_package_phrase(pm), pm_command_example(pm)),
{
    let pm_package = match pm {
        PackageManager::Dnf => "DNF paket adı",
        PackageManager::Apt => "APT (deb) paket adı",
        PackageManager::Pacman => "pacman paket adı",
    };
    let pm_example = match pm {
        PackageManager::Dnf => "sudo dnf install ...",
        PackageManager::Apt => "sudo apt-get install ...",
        PackageManager::Pacman => "sudo pacman -S ...",
    };
    let mut s = String::from_str(
        "Sen bir Linux ve Bubblewrap sandbox uzmanı yapay zeka asistanısın. İzole ortamda çalıştırılan '",
    );
    s.append(command);
    s.append("' komutu şu hata çıktısıyla sonlandı:\n\n");
    s.append(stderr);
    s.append(
        "\n\nLütfen bu hatayı analiz et ve çözmek için ne yapılması gerektiğini bul. Cevabını MUTLAKA aşağıdaki JSON formatında ver. JSON dışında hiçbir metin, markdown veya açıklama yazma.\n\nFormat:\n{\n\"explanation\": \"Hatanın kısa Türkçe açıklaması (maksimum 2 cümle).\",\n\"fix_action\": \"install_container_package\" veya \"run_command\" veya \"none\",\n\"package_name\": \"Eğer kurulması gereken bir ",
    );
    s.append(pm_package);
    s.append(
        " varsa yaz, yoksa null\",\n\"command_to_run\": \"Eğer çalıştırılması gereken bir komut varsa (örn: ",
    );
    s.append(pm_example);
    s.append(" veya mkdir ...), yoksa null\"\n}");
    assert(s@ =~= prompt_text(command@, stderr@, pm_package_phrase(pm), pm_command_example(pm)));
    s
}

} // verus!
