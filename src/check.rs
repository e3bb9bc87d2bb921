//! Checking one toolchain, as a state machine.
//!
//! The machine names the next action (move the lockfile aside, install the
//! toolchain, run the verification command, put the lockfile back); the
//! caller performs it and reports what happened. The machine decides the
//! order, classifies the command's result and publishes the events.
use vstd::prelude::*;

use crate::config::{clone_opt_string, clone_strings, Config};
use crate::errors::CargoMSRVError;
use crate::event::{
    Event,
    EventScope,
    CheckToolchain,
    Compatibility,
    CompatibilityCheckMethod,
    CompatibilityReport,
    Message,
    Method,
    SetupToolchain,
};
use crate::reporter::{probe_trace, result_count, EventLog};
use crate::toolchain::{spec_text, OwnedToolchainSpec};

verus! {

/// The classification of one probe.
#[derive(Clone, Debug, PartialEq)]
pub enum Outcome {
    Success { toolchain: OwnedToolchainSpec },
    Failure { toolchain: OwnedToolchainSpec, error_message: String },
}

impl Outcome {
    pub fn is_success(&self) -> (r: bool)
        ensures
            r == (self is Success),
    {
        match self {
            Outcome::Success { .. } => true,
            Outcome::Failure { .. } => false,
        }
    }

    pub fn toolchain(&self) -> (r: &OwnedToolchainSpec)
        ensures
            *r == match *self {
                Outcome::Success { toolchain } => toolchain,
                Outcome::Failure { toolchain, .. } => toolchain,
            },
    {
        match self {
            Outcome::Success { toolchain } => toolchain,
            Outcome::Failure { toolchain, .. } => toolchain,
        }
    }
}

/// The stages of a probe, in the order they may come.
#[derive(Clone, Copy, Debug, PartialEq, Eq, Structural)]
pub enum ProbeStage {
    MoveLockfile,
    Install,
    RemoveLockfile,
    RunCheck,
    RestoreLockfile,
    Done,
}

pub open spec fn rank(s: ProbeStage) -> int {
    match s {
        ProbeStage::MoveLockfile => 0,
        ProbeStage::Install => 1,
        ProbeStage::RemoveLockfile => 2,
        ProbeStage::RunCheck => 3,
        ProbeStage::RestoreLockfile => 4,
        ProbeStage::Done => 5,
    }
}

/// What the caller is asked to do next.
#[derive(Debug, PartialEq)]
pub enum ProbeAction {
    /// Move the lockfile to its shadow path, if it exists.
    MoveLockfile,
    /// Install the toolchain if it is absent.
    Install(OwnedToolchainSpec),
    /// Remove the lockfile, if it exists.
    RemoveLockfile,
    /// Run the toolchain manager with these arguments, in this directory.
    RunCheck { args: Vec<String>, dir: Option<String> },
    /// Move the lockfile back from its shadow path.
    RestoreLockfile,
    /// Nothing is left to do.
    Done,
}

/// What happened when the caller performed an action.
#[derive(Debug, PartialEq)]
pub enum StepReport {
    /// The action was carried out.
    Completed,
    /// There was no lockfile to move.
    LockfileAbsent,
    /// The verification command ran and exited.
    CheckExited { success: bool, stderr: String },
    /// The action could not be carried out.
    Failed(CargoMSRVError),
}

/// The arguments handed to the toolchain manager's run command: the
/// toolchain's name, then the verification command.
pub open spec fn run_args(t: OwnedToolchainSpec, command: Seq<String>) -> Seq<Seq<char>> {
    seq![spec_text(t)] + command.map_values(|s: String| s@)
}

pub open spec fn texts(v: Seq<String>) -> Seq<Seq<char>> {
    v.map_values(|s: String| s@)
}

/// The stage after the one that installs the toolchain.
pub open spec fn after_install(ignore_lockfile: bool) -> ProbeStage {
    if ignore_lockfile {
        ProbeStage::RemoveLockfile
    } else {
        ProbeStage::RunCheck
    }
}

/// The stage after the check ran, or after a failure: the lockfile goes
/// back first if it was moved aside.
pub open spec fn wind_up(displaced: bool) -> ProbeStage {
    if displaced {
        ProbeStage::RestoreLockfile
    } else {
        ProbeStage::Done
    }
}

/// The error a probe keeps: the first one.
pub open spec fn first_error(earlier: Option<CargoMSRVError>, e: CargoMSRVError) -> Option<
    CargoMSRVError,
> {
    match earlier {
        Some(first) => Some(first),
        None => Some(e),
    }
}

/// The outcome of a verification command that exited.
pub open spec fn classify(t: OwnedToolchainSpec, success: bool, stderr: String) -> Outcome {
    if success {
        Outcome::Success { toolchain: t }
    } else {
        Outcome::Failure { toolchain: t, error_message: stderr }
    }
}

/// How toolchains are checked: through the toolchain manager, with the
/// configured command, lockfile policy and feedback.
pub struct RustupToolchainCheck {
    pub ignore_lockfile: bool,
    pub no_check_feedback: bool,
    pub check_command: Vec<String>,
    pub crate_path: Option<String>,
}

impl RustupToolchainCheck {
    pub fn new(config: &Config) -> (r: RustupToolchainCheck)
        ensures
            r.ignore_lockfile == config.ignore_lockfile,
            r.no_check_feedback == config.no_check_feedback,
            r.check_command@ == config.check_command@,
            r.crate_path == config.crate_path,
    {
        RustupToolchainCheck {
            ignore_lockfile: config.ignore_lockfile,
            no_check_feedback: config.no_check_feedback,
            check_command: clone_strings(&config.check_command),
            crate_path: clone_opt_string(&config.crate_path),
        }
    }

    /// Starts checking `toolchain`: opens its `CheckToolchain` scope.
    pub fn check(&self, toolchain: OwnedToolchainSpec, log: &mut EventLog) -> (r: Probe)
        ensures
            r.wf(),
            r.toolchain_spec() == toolchain,
            r.ignore_lockfile_spec() == self.ignore_lockfile,
            r.no_check_feedback_spec() == self.no_check_feedback,
            r.check_command_spec() == self.check_command@,
            r.crate_path_spec() == self.crate_path,
            r.stage_spec() == (if self.ignore_lockfile {
                ProbeStage::MoveLockfile
            } else {
                ProbeStage::Install
            }),
            !r.displaced_spec(),
            r.outcome is None && r.error is None,
            match r.method {
                Some(Method::RustupRun { args, path }) => args@ == self.check_command@ && path
                    == self.crate_path,
                None => false,
            },
            final(log)@ == old(log)@.push(
                scoped(Message::CheckToolchain(CheckToolchain { toolchain }), EventScope::Start),
            ) + if self.ignore_lockfile {
                Seq::<Event>::empty()
            } else {
                r.entry_events(ProbeStage::Install)
            },
            probe_trace(final(log)@) == probe_trace(old(log)@),
            result_count(final(log)@) == result_count(old(log)@),
    {
        log.start_scope(Message::CheckToolchain(CheckToolchain::new(toolchain.clone())));
        let ghost mid = log@;
        let mut p = Probe {
            toolchain,
            ignore_lockfile: self.ignore_lockfile,
            no_check_feedback: self.no_check_feedback,
            check_command: clone_strings(&self.check_command),
            crate_path: clone_opt_string(&self.crate_path),
            method: Some(
                Method::rustup_run(
                    clone_strings(&self.check_command),
                    clone_opt_string(&self.crate_path),
                ),
            ),
            stage: ProbeStage::MoveLockfile,
            displaced: false,
            outcome: None,
            error: None,
        };
        if !self.ignore_lockfile {
            p.enter(log, ProbeStage::Install);
        }
        proof {
            if self.ignore_lockfile {
                assert(log@ =~= mid + Seq::<Event>::empty());
            }
        }
        p
    }
}

/// One toolchain being checked.
pub struct Probe {
    pub toolchain: OwnedToolchainSpec,
    pub ignore_lockfile: bool,
    pub no_check_feedback: bool,
    pub check_command: Vec<String>,
    pub crate_path: Option<String>,
    /// How the command will be run; published when the run stage opens.
    pub method: Option<Method>,
    pub stage: ProbeStage,
    /// Whether the lockfile sits at its shadow path.
    pub displaced: bool,
    /// The outcome of the verification command, once it ran.
    pub outcome: Option<Outcome>,
    /// The first failure, if any.
    pub error: Option<CargoMSRVError>,
}

/// `r` is the action that probe `p` asks for at its stage.
pub open spec fn action_for(p: Probe, r: ProbeAction) -> bool {
    match p.stage {
        ProbeStage::MoveLockfile => r == ProbeAction::MoveLockfile,
        ProbeStage::Install => r == ProbeAction::Install(p.toolchain),
        ProbeStage::RemoveLockfile => r == ProbeAction::RemoveLockfile,
        ProbeStage::RunCheck => match r {
            ProbeAction::RunCheck { args, dir } => texts(args@) == run_args(
                p.toolchain,
                p.check_command@,
            ) && dir == p.crate_path,
            _ => false,
        },
        ProbeStage::RestoreLockfile => r == ProbeAction::RestoreLockfile,
        ProbeStage::Done => r == ProbeAction::Done,
    }
}

/// A single-shot event.
pub open spec fn single(m: Message) -> Event {
    Event { message: m, scope: None }
}

/// One end of a scoped event.
pub open spec fn scoped(m: Message, s: EventScope) -> Event {
    Event { message: m, scope: Some(s) }
}

impl Probe {
    pub open spec fn toolchain_spec(&self) -> OwnedToolchainSpec {
        self.toolchain
    }

    pub open spec fn ignore_lockfile_spec(&self) -> bool {
        self.ignore_lockfile
    }

    pub open spec fn no_check_feedback_spec(&self) -> bool {
        self.no_check_feedback
    }

    pub open spec fn check_command_spec(&self) -> Seq<String> {
        self.check_command@
    }

    pub open spec fn crate_path_spec(&self) -> Option<String> {
        self.crate_path
    }

    pub open spec fn stage_spec(&self) -> ProbeStage {
        self.stage
    }

    pub open spec fn displaced_spec(&self) -> bool {
        self.displaced
    }

    pub open spec fn outcome_spec(&self) -> Option<Outcome> {
        self.outcome
    }

    pub open spec fn error_spec(&self) -> Option<CargoMSRVError> {
        self.error
    }

    pub open spec fn wf(&self) -> bool {
        &&& self.displaced ==> self.ignore_lockfile
        &&& (self.stage == ProbeStage::MoveLockfile ==> !self.displaced && self.ignore_lockfile)
        &&& (self.stage == ProbeStage::RemoveLockfile ==> self.ignore_lockfile)
        &&& (self.stage == ProbeStage::RestoreLockfile ==> self.displaced)
        &&& (rank(self.stage) < 3 ==> self.outcome is None && self.error is None)
        &&& (rank(self.stage) < 3 ==> self.method is Some)
        &&& (self.stage == ProbeStage::RunCheck ==> self.method is None)
        &&& (self.stage == ProbeStage::RunCheck ==> self.outcome is None && self.error is None)
        &&& (self.stage == ProbeStage::Done && self.displaced ==> self.error is Some)
        &&& (rank(self.stage) >= 4 && self.error is None ==> self.outcome is Some)
        &&& match self.outcome {
            Some(o) => match o {
                Outcome::Success { toolchain } => toolchain == self.toolchain,
                Outcome::Failure { toolchain, .. } => toolchain == self.toolchain,
            },
            None => true,
        }
    }

    /// The probe once it stands at `stage`; the run stage uses up the method.
    pub open spec fn moved_to(self, stage: ProbeStage) -> Probe {
        Probe {
            stage,
            method: if stage == ProbeStage::RunCheck {
                None
            } else {
                self.method
            },
            ..self
        }
    }

    /// The events published on entering `stage`: the start of the install
    /// scope, the method of the run, or the end of the probe's scope.
    pub open spec fn entry_events(self, stage: ProbeStage) -> Seq<Event> {
        match stage {
            ProbeStage::Install => seq![
                scoped(
                    Message::SetupToolchain(SetupToolchain { toolchain: self.toolchain }),
                    EventScope::Start,
                ),
            ],
            ProbeStage::RunCheck => seq![
                single(
                    Message::CompatibilityCheckMethod(
                        CompatibilityCheckMethod { toolchain: self.toolchain, method: self.method->Some_0 },
                    ),
                ),
            ],
            ProbeStage::Done => seq![
                scoped(
                    Message::CheckToolchain(CheckToolchain { toolchain: self.toolchain }),
                    EventScope::End,
                ),
            ],
            _ => seq![],
        }
    }

    /// The verdict published once the command exited.
    pub open spec fn verdict_event(self, success: bool, stderr: String) -> Event {
        single(
            Message::Compatibility(
                if success {
                    Compatibility {
                        toolchain: self.toolchain,
                        decision: true,
                        compatibility_report: CompatibilityReport::Compatible,
                    }
                } else {
                    Compatibility {
                        toolchain: self.toolchain,
                        decision: false,
                        compatibility_report: CompatibilityReport::Incompatible {
                            error: if self.no_check_feedback {
                                None
                            } else {
                                Some(stderr)
                            },
                        },
                    }
                },
            ),
        )
    }

    /// The error a failed action at the current stage ends the probe with:
    /// an install failure names the toolchain, a command that could not be
    /// run is `UnableToRunCheck`, a lockfile failure is the one reported.
    pub open spec fn failure_for(self, e: CargoMSRVError) -> CargoMSRVError {
        match self.stage {
            ProbeStage::Install => CargoMSRVError::RustupInstallFailed(self.toolchain),
            ProbeStage::RunCheck => CargoMSRVError::UnableToRunCheck,
            _ => e,
        }
    }

    /// The probe after a failure at the current stage.
    pub open spec fn failed(self, e: CargoMSRVError) -> Probe {
        Probe { error: Some(self.failure_for(e)), ..self }.moved_to(wind_up(self.displaced))
    }

    /// The probe after the caller reports `report` for the current action.
    pub open spec fn after(self, report: StepReport) -> Probe {
        match (self.stage, report) {
            (ProbeStage::MoveLockfile, StepReport::Failed(e)) => Probe {
                error: Some(e),
                ..self
            }.moved_to(ProbeStage::Done),
            (ProbeStage::MoveLockfile, StepReport::Completed) => Probe {
                displaced: true,
                ..self
            }.moved_to(ProbeStage::Install),
            (ProbeStage::MoveLockfile, _) => self.moved_to(ProbeStage::Install),
            (ProbeStage::Install, StepReport::Failed(e)) => self.failed(e),
            (ProbeStage::Install, _) => self.moved_to(after_install(self.ignore_lockfile)),
            (ProbeStage::RemoveLockfile, StepReport::Failed(e)) => self.failed(e),
            (ProbeStage::RemoveLockfile, _) => self.moved_to(ProbeStage::RunCheck),
            (ProbeStage::RunCheck, StepReport::CheckExited { success, stderr }) => Probe {
                outcome: Some(classify(self.toolchain, success, stderr)),
                ..self
            }.moved_to(wind_up(self.displaced)),
            (ProbeStage::RunCheck, _) => self.failed(CargoMSRVError::UnableToRunCheck),
            (ProbeStage::RestoreLockfile, StepReport::Failed(e)) => Probe {
                error: first_error(self.error, e),
                ..self
            }.moved_to(ProbeStage::Done),
            (ProbeStage::RestoreLockfile, _) => Probe {
                displaced: false,
                ..self
            }.moved_to(ProbeStage::Done),
            (ProbeStage::Done, _) => self,
        }
    }

    /// The events published when the caller reports `report`: the end of
    /// the install scope after an install, the verdict after the command
    /// exited, then what entering the next stage publishes.
    pub open spec fn step_events(self, report: StepReport) -> Seq<Event> {
        let next = self.after(report).stage;
        let before: Seq<Event> = match (self.stage, report) {
            (ProbeStage::Install, _) => seq![
                scoped(
                    Message::SetupToolchain(SetupToolchain { toolchain: self.toolchain }),
                    EventScope::End,
                ),
            ],
            (ProbeStage::RunCheck, StepReport::CheckExited { success, stderr }) => seq![
                self.verdict_event(success, stderr),
            ],
            _ => seq![],
        };
        before + self.entry_events(next)
    }

    /// Moves to `stage`, publishing what entering it means.
    fn enter(&mut self, log: &mut EventLog, stage: ProbeStage)
        requires
            stage == ProbeStage::RunCheck ==> old(self).method is Some,
            stage != ProbeStage::MoveLockfile,
        ensures
            *final(self) == old(self).moved_to(stage),
            final(log)@ == old(log)@ + old(self).entry_events(stage),
            probe_trace(final(log)@) == probe_trace(old(log)@),
            result_count(final(log)@) == result_count(old(log)@),
    {
        let ghost before = log@;
        match stage {
            ProbeStage::Install => {
                log.start_scope(
                    Message::SetupToolchain(SetupToolchain { toolchain: self.toolchain.clone() }),
                );
            },
            ProbeStage::RunCheck => {
                match self.method.take() {
                    Some(method) => {
                        log.report_event(
                            Event::new(
                                Message::CompatibilityCheckMethod(
                                    CompatibilityCheckMethod::new(self.toolchain.clone(), method),
                                ),
                            ),
                        );
                    },
                    None => {},
                }
            },
            ProbeStage::Done => {
                log.end_scope(Message::CheckToolchain(CheckToolchain::new(self.toolchain.clone())));
            },
            _ => {},
        }
        self.stage = stage;
        proof {
            assert(log@ =~= before + old(self).entry_events(stage));
        }
    }

    /// Records a failure at the current stage; the lockfile is put back
    /// before the probe ends.
    fn fail(&mut self, log: &mut EventLog, e: CargoMSRVError)
        requires
            old(self).wf(),
            rank(old(self).stage) < 4,
            old(self).stage != ProbeStage::RunCheck || old(self).method is None,
        ensures
            final(self).wf(),
            *final(self) == old(self).failed(e),
            final(log)@ == old(log)@ + old(self).entry_events(wind_up(old(self).displaced)),
            probe_trace(final(log)@) == probe_trace(old(log)@),
            result_count(final(log)@) == result_count(old(log)@),
    {
        let err = match self.stage {
            ProbeStage::Install => CargoMSRVError::RustupInstallFailed(self.toolchain.clone()),
            ProbeStage::RunCheck => CargoMSRVError::UnableToRunCheck,
            _ => e,
        };
        self.error = Some(err);
        if self.displaced {
            self.enter(log, ProbeStage::RestoreLockfile);
        } else {
            self.enter(log, ProbeStage::Done);
        }
    }

    /// The action the caller performs next.
    pub fn next_action(&self) -> (r: ProbeAction)
        requires
            self.wf(),
        ensures
            action_for(*self, r),
            r is MoveLockfile || r is RemoveLockfile || r is RestoreLockfile
                ==> self.ignore_lockfile_spec(),
    {
        match self.stage {
            ProbeStage::MoveLockfile => ProbeAction::MoveLockfile,
            ProbeStage::Install => ProbeAction::Install(self.toolchain.clone()),
            ProbeStage::RemoveLockfile => ProbeAction::RemoveLockfile,
            ProbeStage::RunCheck => {
                let mut args: Vec<String> = Vec::new();
                args.push(self.toolchain.spec());
                let mut i: usize = 0;
                while i < self.check_command.len()
                    invariant
                        i <= self.check_command@.len(),
                        texts(args@) == seq![spec_text(self.toolchain)] + texts(
                            self.check_command@.subrange(0, i as int),
                        ),
                    decreases self.check_command@.len() - i,
                {
                    let ghost prev = args@;
                    args.push(self.check_command[i].clone());
                    proof {
                        assert(args@ == prev.push(self.check_command@[i as int]));
                        assert(texts(args@) =~= texts(prev).push(self.check_command@[i as int]@));
                        assert(texts(self.check_command@.subrange(0, i + 1)) =~= texts(
                            self.check_command@.subrange(0, i as int),
                        ).push(self.check_command@[i as int]@));
                    }
                    i = i + 1;
                }
                proof {
                    assert(self.check_command@.subrange(0, self.check_command@.len() as int)
                        =~= self.check_command@);
                }
                ProbeAction::RunCheck { args, dir: clone_opt_string(&self.crate_path) }
            },
            ProbeStage::RestoreLockfile => ProbeAction::RestoreLockfile,
            ProbeStage::Done => ProbeAction::Done,
        }
    }

    /// Takes in what happened when the caller performed the current action.
    pub fn advance(&mut self, log: &mut EventLog, report: StepReport)
        requires
            old(self).wf(),
            old(self).stage != ProbeStage::Done,
        ensures
            final(self).wf(),
            *final(self) == old(self).after(report),
            final(log)@ == old(log)@ + old(self).step_events(report),
            rank(final(self).stage) > rank(old(self).stage),
            probe_trace(final(log)@) == probe_trace(old(log)@),
            result_count(final(log)@) == result_count(old(log)@),
    {
        let ghost start = log@;
        let ghost p0 = *self;
        match self.stage {
            ProbeStage::MoveLockfile => {
                match report {
                    StepReport::Failed(e) => {
                        self.error = Some(e);
                        self.enter(log, ProbeStage::Done);
                    },
                    StepReport::Completed => {
                        self.displaced = true;
                        self.enter(log, ProbeStage::Install);
                    },
                    _ => {
                        self.enter(log, ProbeStage::Install);
                    },
                }
            },
            ProbeStage::Install => {
                log.end_scope(
                    Message::SetupToolchain(SetupToolchain { toolchain: self.toolchain.clone() }),
                );
                match report {
                    StepReport::Failed(e) => self.fail(log, e),
                    _ => {
                        if self.ignore_lockfile {
                            self.enter(log, ProbeStage::RemoveLockfile);
                        } else {
                            self.enter(log, ProbeStage::RunCheck);
                        }
                    },
                }
            },
            ProbeStage::RemoveLockfile => {
                match report {
                    StepReport::Failed(e) => self.fail(log, e),
                    _ => self.enter(log, ProbeStage::RunCheck),
                }
            },
            ProbeStage::RunCheck => {
                match report {
                    StepReport::CheckExited { success, stderr } => {
                        let t = self.toolchain.clone();
                        if success {
                            log.report_event(
                                Event::new(Message::Compatibility(Compatibility::compatible(t))),
                            );
                            self.outcome = Some(
                                Outcome::Success { toolchain: self.toolchain.clone() },
                            );
                        } else {
                            let feedback = if self.no_check_feedback {
                                None
                            } else {
                                Some(stderr.clone())
                            };
                            log.report_event(
                                Event::new(
                                    Message::Compatibility(
                                        Compatibility::incompatible(t, feedback),
                                    ),
                                ),
                            );
                            self.outcome = Some(
                                Outcome::Failure {
                                    toolchain: self.toolchain.clone(),
                                    error_message: stderr,
                                },
                            );
                        }
                        if self.displaced {
                            self.enter(log, ProbeStage::RestoreLockfile);
                        } else {
                            self.enter(log, ProbeStage::Done);
                        }
                    },
                    _ => self.fail(log, CargoMSRVError::UnableToRunCheck),
                }
            },
            ProbeStage::RestoreLockfile => {
                match report {
                    StepReport::Failed(e) => {
                        if self.error.is_none() {
                            self.error = Some(e);
                        }
                    },
                    _ => {
                        self.displaced = false;
                    },
                }
                self.enter(log, ProbeStage::Done);
            },
            ProbeStage::Done => {},
        }
        proof {
            assert(log@ =~= start + p0.step_events(report));
        }
    }

    /// The action the caller performs next is `Done`.
    pub fn is_done(&self) -> (r: bool)
        ensures
            r == (self.stage_spec() == ProbeStage::Done),
    {
        match self.stage {
            ProbeStage::Done => true,
            _ => false,
        }
    }

    /// The probe's result: the outcome of the command, or the first failure.
    pub fn finish(self) -> (r: Result<Outcome, CargoMSRVError>)
        requires
            self.wf(),
            self.stage_spec() == ProbeStage::Done,
        ensures
            match self.error_spec() {
                Some(e) => r == Err::<Outcome, CargoMSRVError>(e),
                None => self.outcome_spec() == Some(r->Ok_0) && r is Ok,
            },
    {
        match self.error {
            Some(e) => Err(e),
            None => match self.outcome {
                Some(o) => Ok(o),
                None => Err(CargoMSRVError::UnableToRunCheck),
            },
        }
    }
}

/// A probe never ends with the lockfile displaced unless it ends with an
/// error: every path that moved the lockfile aside passes through its
/// restoration first.
pub proof fn lemma_lockfile_restored(p: Probe)
    requires
        p.wf(),
        p.stage_spec() == ProbeStage::Done,
    ensures
        p.displaced_spec() ==> p.error_spec() is Some,
{
}

} // verus!
