//! The order of the steps of a run, as a state machine. The machine decides;
//! whoever drives it does the outside work that an action names and hands
//! back what happened as an event.

use crate::target::ConfigError;
use vstd::prelude::*;

verus! {

/// Where a run stands.
#[derive(Clone, Copy, Debug, PartialEq, Eq, Structural)]
pub enum Phase {
    /// Nothing was done yet.
    Idle,
    /// The run is configured and the workspace is known.
    IdentityResolved,
    /// The sources are on the remote machine.
    Uploaded,
    /// The sources were left where they are, as the run was asked to.
    UploadSkipped,
    /// The remote session is open and the script was sent.
    Executing,
    /// What was built is on the local machine.
    Downloaded,
    /// What was built, if anything, was left on the remote machine.
    DownloadSkipped,
    /// The run is over and the remote build tool has ended.
    Done,
    /// The run is over because a step of its own failed.
    Failed,
}

/// The step at which a run failed.
#[derive(Clone, Copy, Debug, PartialEq, Eq, Structural)]
pub enum Stage {
    /// The run could not be configured.
    Configuration,
    /// The sources could not be sent.
    Upload,
    /// The remote session could not be started.
    SessionStart,
    /// The remote session started, then died.
    Session,
    /// What was built could not be fetched.
    Download,
    /// The driver reported something that cannot happen where the run stood.
    Sequence,
}

/// Why a step failed, as far as the driver can tell.
#[derive(Clone, Copy, Debug, PartialEq, Eq, Structural)]
pub enum Cause {
    /// What the configuration lacks.
    Configuration(ConfigError),
    /// A program or a file that the step needs was not found.
    NotFound,
    /// The step was not permitted.
    PermissionDenied,
    /// The connection was refused or broke.
    Disconnected,
    /// No space was left to write to.
    StorageFull,
    /// Another failure of reading or writing.
    Io,
    /// A program that did the step ended with this exit code.
    Status(i32),
    /// A program that did the step ended without an exit code.
    Killed,
    /// The driver reported an event out of order.
    OutOfOrder,
}

/// A failed step and why it failed.
#[derive(Clone, Copy, Debug, PartialEq, Eq, Structural)]
pub struct Failure {
    pub stage: Stage,
    pub cause: Cause,
}

/// What the driver reports.
#[derive(Clone, Copy, Debug, PartialEq, Eq, Structural)]
pub enum Event {
    /// The run is configured.
    Resolved,
    /// The configuration was refused.
    Rejected(Cause),
    /// The sources were sent.
    UploadFinished,
    /// Sending the sources failed.
    UploadFailed(Cause),
    /// The session is open and the script was sent whole.
    SessionOpened,
    /// The session could not be started.
    SessionRefused(Cause),
    /// The remote command ended with this exit code.
    Exited(i32),
    /// The session died before the remote command ended.
    SessionLost(Cause),
    /// What was built was fetched.
    DownloadFinished,
    /// Fetching what was built failed.
    DownloadFailed(Cause),
    /// A step without outside work was taken.
    Proceeded,
}

/// How a run ended.
#[derive(Clone, Copy, Debug, PartialEq, Eq, Structural)]
pub enum Outcome {
    /// The remote build succeeded.
    Success,
    /// The remote build tool failed with this exit code: the user's code does
    /// not build.
    BuildFailed(i32),
    /// A step of the run itself failed.
    OrchestrationFailed(Failure),
}

/// What the driver is to do next.
#[derive(Clone, Copy, Debug, PartialEq, Eq, Structural)]
pub enum Action {
    /// Configure the run; answer `Resolved` or `Rejected`.
    Resolve,
    /// Send the sources; answer `UploadFinished` or `UploadFailed`.
    Upload,
    /// Open the session and send the script; answer `SessionOpened` or
    /// `SessionRefused`.
    OpenSession,
    /// Wait for the remote command; answer `Exited` or `SessionLost`.
    AwaitExit,
    /// Fetch what was built; answer `DownloadFinished` or `DownloadFailed`.
    Download,
    /// Nothing outside; answer `Proceeded`.
    Proceed,
    /// The run is over: report this.
    Report(Outcome),
}

/// The exit code of an orchestration failure, which sets it apart from most
/// failures of the build itself.
pub const ORCHESTRATION_FAILURE: i32 = 2;

/// The exit code that reports `outcome`: 0 for a success, the remote build
/// tool's own code where it failed, and 2 where the run itself failed.
pub open spec fn exit_code_of(outcome: Outcome) -> i32 {
    match outcome {
        Outcome::Success => 0,
        Outcome::BuildFailed(code) => code,
        Outcome::OrchestrationFailed(_) => ORCHESTRATION_FAILURE,
    }
}

/// The exit code that reports `outcome`.
pub fn exit_code(outcome: Outcome) -> (r: i32)
    ensures
        r == exit_code_of(outcome),
{
    match outcome {
        Outcome::Success => 0,
        Outcome::BuildFailed(code) => code,
        Outcome::OrchestrationFailed(_) => ORCHESTRATION_FAILURE,
    }
}

/// One run: where it stands, what it was asked to leave out, and what is
/// known of its end.
#[derive(Clone, Copy, Debug, PartialEq, Eq, Structural)]
pub struct Run {
    pub phase: Phase,
    /// Leave what was built on the remote machine.
    pub no_copy_back: bool,
    /// Send no sources before building.
    pub skip_upload: bool,
    /// The exit code of the remote command, once it has ended.
    pub remote_exit: Option<i32>,
    /// The step that failed and why, once one has.
    pub failure: Option<Failure>,
}

impl Run {
    /// What holds of every run that was started and stepped: a failure is
    /// recorded exactly in `Failed`, an exit code is known from the end of
    /// the remote command on and not before, and the two skipped phases are
    /// entered only where the run allows it.
    pub open spec fn wf(self) -> bool {
        &&& self.phase == Phase::Failed <==> self.failure.is_some()
        &&& match self.phase {
            Phase::Idle | Phase::IdentityResolved => self.remote_exit.is_none(),
            Phase::Uploaded => self.remote_exit.is_none() && !self.skip_upload,
            Phase::UploadSkipped => self.remote_exit.is_none() && self.skip_upload,
            Phase::Executing => self.remote_exit.is_some() ==> self.fetches(),
            Phase::Downloaded => self.fetches(),
            Phase::DownloadSkipped => self.remote_exit.is_some() && !self.fetches(),
            Phase::Done => self.remote_exit.is_some(),
            Phase::Failed => true,
        }
    }

    /// Whether what was built is to be fetched: the remote command has ended
    /// with success, and the run was not asked to leave its outputs.
    pub open spec fn fetches(self) -> bool {
        self.remote_exit == Some(0i32) && !self.no_copy_back
    }

    /// Whether the run is over.
    pub open spec fn is_over(self) -> bool {
        self.phase == Phase::Done || self.phase == Phase::Failed
    }

    /// What a run that is over reports: the step that failed, if one did,
    /// else how the remote build tool ended.
    pub open spec fn conclusion(self) -> Outcome {
        match self.failure {
            Some(failure) => Outcome::OrchestrationFailed(failure),
            None => match self.remote_exit {
                Some(code) => if code == 0 {
                    Outcome::Success
                } else {
                    Outcome::BuildFailed(code)
                },
                None => Outcome::Success,
            },
        }
    }

    /// The run in another phase, with the next action.
    pub open spec fn enter(self, phase: Phase, action: Action) -> (Run, Action) {
        (Run { phase, ..self }, action)
    }

    /// The run failed at `stage` for `cause`. What was known of the remote
    /// command stays known.
    pub open spec fn fail(self, stage: Stage, cause: Cause) -> (Run, Action) {
        (
            Run { phase: Phase::Failed, failure: Some(Failure { stage, cause }), ..self },
            Action::Report(Outcome::OrchestrationFailed(Failure { stage, cause })),
        )
    }

    /// A new run and its first action.
    pub open spec fn initial(no_copy_back: bool, skip_upload: bool) -> (Run, Action) {
        (
            Run {
                phase: Phase::Idle,
                no_copy_back,
                skip_upload,
                remote_exit: None,
                failure: None,
            },
            Action::Resolve,
        )
    }

    /// The run after `event`, and what to do next. A run that is over stays
    /// as it is. An event that cannot happen where the run stands fails it.
    pub open spec fn next(self, event: Event) -> (Run, Action) {
        match self.phase {
            Phase::Done | Phase::Failed => (self, Action::Report(self.conclusion())),
            Phase::Idle => match event {
                Event::Resolved => self.enter(
                    Phase::IdentityResolved,
                    if self.skip_upload {
                        Action::Proceed
                    } else {
                        Action::Upload
                    },
                ),
                Event::Rejected(cause) => self.fail(Stage::Configuration, cause),
                _ => self.fail(Stage::Sequence, Cause::OutOfOrder),
            },
            Phase::IdentityResolved => match event {
                Event::UploadFinished => if self.skip_upload {
                    self.fail(Stage::Sequence, Cause::OutOfOrder)
                } else {
                    self.enter(Phase::Uploaded, Action::OpenSession)
                },
                Event::Proceeded => if self.skip_upload {
                    self.enter(Phase::UploadSkipped, Action::OpenSession)
                } else {
                    self.fail(Stage::Sequence, Cause::OutOfOrder)
                },
                Event::UploadFailed(cause) => self.fail(Stage::Upload, cause),
                _ => self.fail(Stage::Sequence, Cause::OutOfOrder),
            },
            Phase::Uploaded | Phase::UploadSkipped => match event {
                Event::SessionOpened => self.enter(Phase::Executing, Action::AwaitExit),
                Event::SessionRefused(cause) => self.fail(Stage::SessionStart, cause),
                _ => self.fail(Stage::Sequence, Cause::OutOfOrder),
            },
            Phase::Executing => match self.remote_exit {
                None => match event {
                    Event::Exited(code) => {
                        let ended = Run { remote_exit: Some(code), ..self };
                        if ended.fetches() {
                            ended.enter(Phase::Executing, Action::Download)
                        } else {
                            ended.enter(Phase::DownloadSkipped, Action::Proceed)
                        }
                    },
                    Event::SessionLost(cause) => self.fail(Stage::Session, cause),
                    _ => self.fail(Stage::Sequence, Cause::OutOfOrder),
                },
                Some(_) => match event {
                    Event::DownloadFinished => self.enter(Phase::Downloaded, Action::Proceed),
                    Event::DownloadFailed(cause) => self.fail(Stage::Download, cause),
                    _ => self.fail(Stage::Sequence, Cause::OutOfOrder),
                },
            },
            Phase::Downloaded | Phase::DownloadSkipped => match event {
                Event::Proceeded => self.enter(Phase::Done, Action::Report(self.conclusion())),
                _ => self.fail(Stage::Sequence, Cause::OutOfOrder),
            },
        }
    }

    /// Starts a run.
    pub fn start(no_copy_back: bool, skip_upload: bool) -> (r: (Run, Action))
        ensures
            r == Run::initial(no_copy_back, skip_upload),
            r.0.wf(),
    {
        (
            Run {
                phase: Phase::Idle,
                no_copy_back,
                skip_upload,
                remote_exit: None,
                failure: None,
            },
            Action::Resolve,
        )
    }

    fn conclude(&self) -> (r: Outcome)
        ensures
            r == self.conclusion(),
    {
        match self.failure {
            Some(failure) => Outcome::OrchestrationFailed(failure),
            None => match self.remote_exit {
                Some(code) => if code == 0 {
                    Outcome::Success
                } else {
                    Outcome::BuildFailed(code)
                },
                None => Outcome::Success,
            },
        }
    }

    /// How the run ended, once it is over.
    pub fn outcome(&self) -> (r: Option<Outcome>)
        ensures
            r == if self.is_over() {
                Some(self.conclusion())
            } else {
                None
            },
    {
        match self.phase {
            Phase::Done | Phase::Failed => Some(self.conclude()),
            _ => None,
        }
    }

    fn entering(&self, phase: Phase, action: Action) -> (r: (Run, Action))
        ensures
            r == self.enter(phase, action),
    {
        (
            Run {
                phase,
                no_copy_back: self.no_copy_back,
                skip_upload: self.skip_upload,
                remote_exit: self.remote_exit,
                failure: self.failure,
            },
            action,
        )
    }

    fn failing(&self, stage: Stage, cause: Cause) -> (r: (Run, Action))
        ensures
            r == self.fail(stage, cause),
    {
        (
            Run {
                phase: Phase::Failed,
                no_copy_back: self.no_copy_back,
                skip_upload: self.skip_upload,
                remote_exit: self.remote_exit,
                failure: Some(Failure { stage, cause }),
            },
            Action::Report(Outcome::OrchestrationFailed(Failure { stage, cause })),
        )
    }

    /// Takes one step: the run after `event`, and what to do next.
    pub fn step(&self, event: Event) -> (r: (Run, Action))
        ensures
            r == self.next(event),
            self.wf() ==> r.0.wf(),
    {
        match self.phase {
            Phase::Done | Phase::Failed => (*self, Action::Report(self.conclude())),
            Phase::Idle => match event {
                Event::Resolved => {
                    let action = if self.skip_upload {
                        Action::Proceed
                    } else {
                        Action::Upload
                    };
                    self.entering(Phase::IdentityResolved, action)
                },
                Event::Rejected(cause) => self.failing(Stage::Configuration, cause),
                _ => self.failing(Stage::Sequence, Cause::OutOfOrder),
            },
            Phase::IdentityResolved => match event {
                Event::UploadFinished => if self.skip_upload {
                    self.failing(Stage::Sequence, Cause::OutOfOrder)
                } else {
                    self.entering(Phase::Uploaded, Action::OpenSession)
                },
                Event::Proceeded => if self.skip_upload {
                    self.entering(Phase::UploadSkipped, Action::OpenSession)
                } else {
                    self.failing(Stage::Sequence, Cause::OutOfOrder)
                },
                Event::UploadFailed(cause) => self.failing(Stage::Upload, cause),
                _ => self.failing(Stage::Sequence, Cause::OutOfOrder),
            },
            Phase::Uploaded | Phase::UploadSkipped => match event {
                Event::SessionOpened => self.entering(Phase::Executing, Action::AwaitExit),
                Event::SessionRefused(cause) => self.failing(Stage::SessionStart, cause),
                _ => self.failing(Stage::Sequence, Cause::OutOfOrder),
            },
            Phase::Executing => match self.remote_exit {
                None => match event {
                    Event::Exited(code) => {
                        let ended = Run {
                            phase: self.phase,
                            no_copy_back: self.no_copy_back,
                            skip_upload: self.skip_upload,
                            remote_exit: Some(code),
                            failure: self.failure,
                        };
                        if code == 0 && !self.no_copy_back {
                            ended.entering(Phase::Executing, Action::Download)
                        } else {
                            ended.entering(Phase::DownloadSkipped, Action::Proceed)
                        }
                    },
                    Event::SessionLost(cause) => self.failing(Stage::Session, cause),
                    _ => self.failing(Stage::Sequence, Cause::OutOfOrder),
                },
                Some(_) => match event {
                    Event::DownloadFinished => self.entering(Phase::Downloaded, Action::Proceed),
                    Event::DownloadFailed(cause) => self.failing(Stage::Download, cause),
                    _ => self.failing(Stage::Sequence, Cause::OutOfOrder),
                },
            },
            Phase::Downloaded | Phase::DownloadSkipped => match event {
                Event::Proceeded => self.entering(Phase::Done, Action::Report(self.conclude())),
                _ => self.failing(Stage::Sequence, Cause::OutOfOrder),
            },
        }
    }
}

/// A step keeps a run well formed, and leaves what the run was asked to
/// leave out as it was.
pub proof fn step_keeps_run(run: Run, event: Event)
    requires
        run.wf(),
    ensures
        run.next(event).0.wf(),
        run.next(event).0.no_copy_back == run.no_copy_back,
        run.next(event).0.skip_upload == run.skip_upload,
{
}

/// A run that is over stays as it is, and goes on reporting the same.
pub proof fn over_stays_over(run: Run, event: Event)
    requires
        run.is_over(),
    ensures
        run.next(event).0 == run,
        run.next(event).1 == Action::Report(run.conclusion()),
{
}

/// A run reports exactly when it is over, and then what it reports is its
/// conclusion.
pub proof fn reports_when_over(run: Run, event: Event)
    requires
        run.wf(),
    ensures
        run.next(event).0.is_over() <==> run.next(event).1 == Action::Report(
            run.next(event).0.conclusion(),
        ),
        (exists|o: Outcome| run.next(event).1 == Action::Report(o)) ==> run.next(event).0.is_over(),
{
}

/// The session is opened only from a run whose sources are in place: sent,
/// or left out because the run was asked to. A failed upload ends the run,
/// so that nothing is ever executed after it.
pub proof fn executes_only_after_sync(run: Run, event: Event)
    requires
        run.wf(),
    ensures
        run.next(event).1 == Action::OpenSession ==> run.phase == Phase::IdentityResolved && (if run.skip_upload {
            event == Event::Proceeded
        } else {
            event == Event::UploadFinished
        }),
        event is UploadFailed ==> run.next(event).0.is_over(),
{
}

/// Outputs are fetched only after the remote command ended with success, and
/// never in a run that was asked to leave them: such a run goes from
/// `Executing` to `DownloadSkipped` when the remote command ends, whatever
/// its exit code.
pub proof fn no_copy_back_never_downloads(run: Run, event: Event)
    requires
        run.wf(),
    ensures
        run.next(event).1 == Action::Download ==> !run.no_copy_back && event == Event::Exited(0i32),
        run.next(event).0.phase == Phase::Downloaded ==> !run.no_copy_back,
        run.no_copy_back && run.phase == Phase::Executing ==> forall|code: i32|
            #[trigger] run.next(Event::Exited(code)) == (
                Run { phase: Phase::DownloadSkipped, remote_exit: Some(code), ..run },
                Action::Proceed,
            ),
{
}

/// A run that reaches `Done` exits as the remote command did. A failed
/// download fails the run but keeps the remote command's exit code on
/// record, and every failed run exits with the code kept for that.
pub proof fn exit_mirrors_remote(run: Run, event: Event)
    requires
        run.wf(),
        !run.is_over(),
    ensures
        run.next(event).0.phase == Phase::Done ==> run.remote_exit.is_some() && exit_code_of(
            run.next(event).0.conclusion(),
        ) == run.remote_exit.unwrap(),
        run.phase == Phase::Executing && event is DownloadFailed ==> run.next(
            event,
        ).0.remote_exit == run.remote_exit,
        run.next(event).0.phase == Phase::Failed ==> exit_code_of(run.next(event).0.conclusion())
            == ORCHESTRATION_FAILURE,
{
}

/// A run that fails records the step that failed together with the cause
/// that the driver gave for it.
pub proof fn failure_records_cause(run: Run, cause: Cause)
    requires
        run.wf(),
    ensures
        run.phase == Phase::Idle ==> run.next(Event::Rejected(cause)).0.failure == Some(
            Failure { stage: Stage::Configuration, cause },
        ),
        run.phase == Phase::IdentityResolved ==> run.next(Event::UploadFailed(cause)).0.failure
            == Some(Failure { stage: Stage::Upload, cause }),
        run.phase == Phase::Uploaded || run.phase == Phase::UploadSkipped ==> run.next(
            Event::SessionRefused(cause),
        ).0.failure == Some(Failure { stage: Stage::SessionStart, cause }),
        run.phase == Phase::Executing && run.remote_exit.is_none() ==> run.next(
            Event::SessionLost(cause),
        ).0.failure == Some(Failure { stage: Stage::Session, cause }),
        run.phase == Phase::Executing && run.remote_exit.is_some() ==> run.next(
            Event::DownloadFailed(cause),
        ).0.failure == Some(Failure { stage: Stage::Download, cause }),
        run.is_over() ==> run.next(Event::UploadFailed(cause)).0.failure == run.failure,
{
}

} // verus!
