//! The Steam client's process-lifecycle layer.
//!
//! Every privileged OS operation (registry access, process enumeration and
//! termination, process launch) reports a phased result: the sub-step that
//! failed, or success, plus the native error code. This module translates
//! those results into the crate's error taxonomy, maps errors to process exit
//! statuses, validates the identity read back from the configuration store,
//! and drives the restart workflow as an explicit state machine whose OS
//! actions are performed by the caller.

use crate::username::{
    lower_bytes, spec_username_error, valid_username_bytes, Username, UsernameError,
};
use vstd::prelude::*;

verus! {

/// The sub-step of a privileged OS operation at which it succeeded or failed.
#[derive(Debug, Clone, Copy, PartialEq, Eq, Structural)]
pub enum Phase {
    /// The whole operation succeeded.
    Success,
    /// Reading Steam's registry subkey failed.
    ReadSteamRegistry,
    /// Writing Steam's registry subkey failed.
    WriteSteamRegistry,
    /// Launching Steam failed.
    LaunchSteam,
    /// Waiting for Steam to exit failed.
    WaitSteamExit,
    /// Enumerating processes failed.
    EnumProcesses,
    /// Terminating a Steam process failed.
    KillSteam,
    /// Opening the login-users file failed.
    FileOpenVdf,
}

/// The outcome of one privileged OS operation: the phase reached and the
/// native error code (meaningful only on failure).
#[derive(Debug, Clone, Copy, PartialEq, Eq, Structural)]
pub struct PhasedResult {
    /// The phase that failed, or [`Phase::Success`].
    pub phase: Phase,
    /// The native error code the OS reported.
    pub code: u32,
}

/// The primary error type: one variant per failing phase, each carrying the
/// native error code, plus the case of a stored identity that does not
/// validate.
#[derive(Debug, Clone, Copy, PartialEq, Eq, Structural)]
pub enum Error {
    /// Reading Steam's registry subkey failed.
    ReadSteamRegistry(u32),
    /// Writing Steam's registry subkey failed.
    WriteSteamRegistry(u32),
    /// Launching Steam failed.
    LaunchSteam(u32),
    /// Waiting for Steam to exit failed.
    WaitSteamExit(u32),
    /// Looking for a Steam process failed.
    EnumProcesses(u32),
    /// Terminating a Steam process failed.
    KillSteam(u32),
    /// The stored auto-login username is not a valid username.
    InvalidUsernameInRegistry(UsernameError),
    /// Opening the login-users file failed.
    VdfOpen(u32),
}

/// The error a phased result names: each failing phase maps one-to-one to a
/// variant carrying the native code; success maps to no error.
pub open spec fn spec_error_of(r: PhasedResult) -> Option<Error> {
    match r.phase {
        Phase::Success => None,
        Phase::ReadSteamRegistry => Some(Error::ReadSteamRegistry(r.code)),
        Phase::WriteSteamRegistry => Some(Error::WriteSteamRegistry(r.code)),
        Phase::LaunchSteam => Some(Error::LaunchSteam(r.code)),
        Phase::WaitSteamExit => Some(Error::WaitSteamExit(r.code)),
        Phase::EnumProcesses => Some(Error::EnumProcesses(r.code)),
        Phase::KillSteam => Some(Error::KillSteam(r.code)),
        Phase::FileOpenVdf => Some(Error::VdfOpen(r.code)),
    }
}

/// Translates a phased result into the error it names, per [`spec_error_of`].
#[verifier::when_used_as_spec(spec_error_of)]
pub fn error_of(r: PhasedResult) -> (e: Option<Error>)
    ensures
        e == spec_error_of(r),
{
    match r.phase {
        Phase::Success => None,
        Phase::ReadSteamRegistry => Some(Error::ReadSteamRegistry(r.code)),
        Phase::WriteSteamRegistry => Some(Error::WriteSteamRegistry(r.code)),
        Phase::LaunchSteam => Some(Error::LaunchSteam(r.code)),
        Phase::WaitSteamExit => Some(Error::WaitSteamExit(r.code)),
        Phase::EnumProcesses => Some(Error::EnumProcesses(r.code)),
        Phase::KillSteam => Some(Error::KillSteam(r.code)),
        Phase::FileOpenVdf => Some(Error::VdfOpen(r.code)),
    }
}

/// A [`Steam`] result type.
pub type Result<T> = core::result::Result<T, Error>;

/// Turns an error option into a result: an error wins, otherwise `value` is
/// the success.
pub fn err_opt<T, E>(error: Option<E>, value: T) -> (r: core::result::Result<T, E>)
    ensures
        match error {
            Some(e) => r == core::result::Result::<T, E>::Err(e),
            None => r == core::result::Result::<T, E>::Ok(value),
        },
{
    if let Some(e) = error {
        Err(e)
    } else {
        Ok(value)
    }
}

/// What a phased operation with success value `value` yields: the phase's
/// error, or the value.
pub open spec fn spec_outcome<T>(r: PhasedResult, value: T) -> core::result::Result<T, Error> {
    match spec_error_of(r) {
        Some(e) => Err(e),
        None => Ok(value),
    }
}

/// The decision half of an operation that reports only success or failure
/// (shutdown request, launch, identity write).
pub fn unit_outcome(r: PhasedResult) -> (out: Result<()>)
    ensures
        out == spec_outcome(r, ()),
{
    err_opt(error_of(r), ())
}

/// The decision half of an operation that reports a yes-or-no answer as a
/// byte (kill: was anything terminated; liveness: is the client running).
///
/// A kill that matched no running process reports success with a zero flag,
/// so it yields `Ok(false)`, not an error.
pub fn flag_outcome(r: PhasedResult, flag: u8) -> (out: Result<bool>)
    ensures
        out == spec_outcome(r, flag != 0),
{
    err_opt(error_of(r), flag != 0)
}

/// Law: a kill whose operation succeeded while finding nothing to terminate
/// yields `Ok(false)`, never an error.
pub proof fn lemma_kill_nothing_is_ok(r: PhasedResult)
    requires
        r.phase == Phase::Success,
    ensures
        spec_outcome::<bool>(r, false) == core::result::Result::<bool, Error>::Ok(false),
{
}

/// The decision half of reading the stored auto-login identity: a failed read
/// keeps its phase error, and a well-read value must still validate as a
/// username; a stored value that does not is its own, distinct error.
pub fn stored_auto_login_user(r: PhasedResult, bytes: &[u8]) -> (out: Result<Username>)
    ensures
        match spec_error_of(r) {
            Some(e) => out == Result::<Username>::Err(e),
            None => match out {
                Ok(u) => valid_username_bytes(bytes@) && u@ == lower_bytes(bytes@),
                Err(e) => !valid_username_bytes(bytes@) && e == Error::InvalidUsernameInRegistry(
                    spec_username_error(bytes@),
                ),
            },
        },
{
    if let Some(e) = error_of(r) {
        return Err(e);
    }
    match Username::try_from(bytes) {
        Ok(u) => Ok(u),
        Err(ue) => Err(Error::InvalidUsernameInRegistry(ue)),
    }
}

/// The exit status of a process that failed with `e`: 78 for corrupt stored
/// data, 69 for an operational failure (following the BSD sysexits
/// convention).
pub open spec fn spec_exit_code(e: Error) -> u8 {
    match e {
        Error::InvalidUsernameInRegistry(_) => 78,
        _ => 69,
    }
}

/// The exit status for an error, per [`spec_exit_code`].
pub fn exit_code(e: &Error) -> (r: u8)
    ensures
        r == spec_exit_code(*e),
{
    match e {
        Error::InvalidUsernameInRegistry(_) => 78,
        _ => 69,
    }
}

/// A handle to the installed Steam client: the resolved installation path,
/// held inline as a bounded wide-character buffer.
#[derive(Debug, Clone, Copy, PartialEq, Eq)]
pub struct Steam {
    /// The number of meaningful units of `path`.
    len: u16,
    /// The installation path as wide characters; units past `len` are not
    /// meaningful.
    path: [u16; 260],
}

impl View for Steam {
    type V = Seq<u16>;

    /// The meaningful path units.
    closed spec fn view(&self) -> Seq<u16> {
        self.path@.take(self.len as int)
    }
}

impl Steam {
    /// The path buffer never claims more units than it has.
    #[verifier::type_invariant]
    closed spec fn inv(self) -> bool {
        self.len <= 260
    }

    /// Builds a handle from the raw buffer and length the OS layer resolved;
    /// refuses a length beyond the buffer.
    pub fn from_parts(len: u16, path: [u16; 260]) -> (r: Option<Steam>)
        ensures
            match r {
                Some(s) => len <= 260 && s@ == path@.take(len as int),
                None => len > 260,
            },
    {
        if len <= 260 {
            Some(Steam { len, path })
        } else {
            None
        }
    }

    /// The number of meaningful path units.
    pub fn path_len(&self) -> (r: u16)
        ensures
            r as int == self@.len(),
    {
        proof {
            use_type_invariant(self);
        }
        self.len
    }

    /// The meaningful path units.
    pub fn path_units(&self) -> (r: &[u16])
        ensures
            r@ == self@,
    {
        proof {
            use_type_invariant(self);
        }
        vstd::slice::slice_subrange(self.path.as_slice(), 0, self.len as usize)
    }

    /// Whether two handles name the same installation path.
    pub fn same_as(&self, other: &Steam) -> (r: bool)
        ensures
            r == (self@ == other@),
    {
        crate::util::wide_eq(self.path_units(), other.path_units())
    }
}

/// How a restart terminates the running client.
#[derive(Debug, Clone, Copy, PartialEq, Eq, Structural)]
pub enum RestartMethod {
    /// Ask the client to exit and wait for it.
    Graceful,
    /// Terminate its processes outright.
    Forceful,
}

/// What the driver of a restart must do next.
#[derive(Debug, Clone, Copy, PartialEq, Eq, Structural)]
pub enum RestartAction {
    /// Ask the client to exit gracefully.
    RequestShutdown,
    /// Terminate the client's processes.
    KillProcesses,
    /// After a short pause, ask the OS whether the client still runs.
    PollRunning,
    /// Start the client, letting it verify its files.
    LaunchVerified,
    /// Start the client without file verification.
    LaunchFast,
    /// Nothing: the restart is over.
    Finished,
}

/// What the driver observed after performing the requested action.
#[derive(Debug, Clone, Copy, PartialEq, Eq, Structural)]
pub enum RestartEvent {
    /// The phased outcome of the shutdown request.
    ShutdownDone(PhasedResult),
    /// The phased outcome of the kill, plus whether anything was terminated.
    KillDone(PhasedResult, bool),
    /// The phased outcome of the liveness query, plus its answer.
    RunningQueried(PhasedResult, bool),
    /// The phased outcome of the launch.
    LaunchDone(PhasedResult),
}

/// How a finished restart went.
#[derive(Debug, Clone, Copy, PartialEq, Eq)]
pub enum RestartOutcome {
    /// The client was launched. A termination step's failure, if one
    /// happened, is carried for reporting but did not stop the restart.
    Launched(Option<Error>),
    /// The launch itself failed.
    LaunchFailed(Error),
    /// Waiting for the client to exit failed; no launch was attempted.
    WaitAborted(Error),
    /// The client did not exit within the polling budget; no launch was
    /// attempted.
    WaitTimedOut,
}

/// Where a restart stands.
#[derive(Debug, Clone, Copy, PartialEq, Eq)]
pub enum RestartState {
    /// The shutdown request is out.
    AwaitingShutdown,
    /// The kill is out.
    AwaitingKill,
    /// Waiting for the client to exit: how many liveness queries are still
    /// allowed.
    Waiting(u32),
    /// Ready to launch, carrying the termination failure to report, if any.
    ReadyToLaunch(Option<Error>),
    /// Done.
    Complete(RestartOutcome),
}

/// The restart workflow as a state machine.
///
/// The caller performs the OS action that [`RestartController::next_action`]
/// names and feeds the observed outcome back through
/// [`RestartController::step`], until the action is
/// [`RestartAction::Finished`]. The controller itself touches no OS state, so
/// every policy below is a proved property of [`RestartController::spec_step`]:
/// a failure while waiting for exit aborts without launching; any other
/// failed termination step is carried as a report but never prevents the
/// launch; the wait is bounded by the polling budget.
#[derive(Debug, Clone, Copy)]
pub struct RestartController {
    /// Graceful or forceful termination.
    pub method: RestartMethod,
    /// Whether the relaunch lets the client verify its files.
    pub verify: bool,
    /// How many liveness queries a graceful wait may use.
    pub max_polls: u32,
    /// Where the restart stands.
    pub state: RestartState,
}

impl RestartController {
    /// Starts a restart: a graceful one first asks the client to exit and
    /// then waits, querying liveness at most `max_polls` times; a forceful
    /// one kills outright.
    pub fn new(method: RestartMethod, verify: bool, max_polls: u32) -> (c: RestartController)
        ensures
            c.method == method,
            c.verify == verify,
            c.max_polls == max_polls,
            c.state == (match method {
                RestartMethod::Graceful => RestartState::AwaitingShutdown,
                RestartMethod::Forceful => RestartState::AwaitingKill,
            }),
    {
        let state = match method {
            RestartMethod::Graceful => RestartState::AwaitingShutdown,
            RestartMethod::Forceful => RestartState::AwaitingKill,
        };
        RestartController { method, verify, max_polls, state }
    }

    /// What the driver must do next.
    pub open spec fn spec_next_action(&self) -> RestartAction {
        match self.state {
            RestartState::AwaitingShutdown => RestartAction::RequestShutdown,
            RestartState::AwaitingKill => RestartAction::KillProcesses,
            RestartState::Waiting(_) => RestartAction::PollRunning,
            RestartState::ReadyToLaunch(_) => if self.verify {
                RestartAction::LaunchVerified
            } else {
                RestartAction::LaunchFast
            },
            RestartState::Complete(_) => RestartAction::Finished,
        }
    }

    /// What the driver must do next, per [`RestartController::spec_next_action`].
    #[verifier::when_used_as_spec(spec_next_action)]
    pub fn next_action(&self) -> (a: RestartAction)
        ensures
            a == self.spec_next_action(),
    {
        match self.state {
            RestartState::AwaitingShutdown => RestartAction::RequestShutdown,
            RestartState::AwaitingKill => RestartAction::KillProcesses,
            RestartState::Waiting(_) => RestartAction::PollRunning,
            RestartState::ReadyToLaunch(_) => if self.verify {
                RestartAction::LaunchVerified
            } else {
                RestartAction::LaunchFast
            },
            RestartState::Complete(_) => RestartAction::Finished,
        }
    }

    /// Whether `event` answers the action the controller asked for.
    pub open spec fn accepts(&self, event: RestartEvent) -> bool {
        match (self.state, event) {
            (RestartState::AwaitingShutdown, RestartEvent::ShutdownDone(_)) => true,
            (RestartState::AwaitingKill, RestartEvent::KillDone(_, _)) => true,
            (RestartState::Waiting(_), RestartEvent::RunningQueried(_, _)) => true,
            (RestartState::ReadyToLaunch(_), RestartEvent::LaunchDone(_)) => true,
            _ => false,
        }
    }

    /// The transition relation.
    ///
    /// - A shutdown request that succeeds starts the bounded wait. One that
    ///   fails while already waiting for exit aborts the restart; any other
    ///   shutdown failure is carried as a report and the launch proceeds.
    /// - A kill's failure likewise never prevents the launch.
    /// - While waiting, a failed liveness query aborts at the wait phase; the
    ///   client reporting itself gone moves on to the launch; an exhausted
    ///   polling budget gives up without launching.
    /// - The launch's own result finishes the restart.
    pub open spec fn spec_step(self, event: RestartEvent) -> RestartController {
        let state = match (self.state, event) {
            (RestartState::AwaitingShutdown, RestartEvent::ShutdownDone(r)) => {
                if r.phase == Phase::Success {
                    RestartState::Waiting(self.max_polls)
                } else if r.phase == Phase::WaitSteamExit {
                    RestartState::Complete(
                        RestartOutcome::WaitAborted(Error::WaitSteamExit(r.code)),
                    )
                } else {
                    RestartState::ReadyToLaunch(spec_error_of(r))
                }
            },
            (RestartState::AwaitingKill, RestartEvent::KillDone(r, _)) => RestartState::ReadyToLaunch(
                spec_error_of(r),
            ),
            (RestartState::Waiting(left), RestartEvent::RunningQueried(r, running)) => {
                if r.phase != Phase::Success {
                    RestartState::Complete(
                        RestartOutcome::WaitAborted(Error::WaitSteamExit(r.code)),
                    )
                } else if !running {
                    RestartState::ReadyToLaunch(None)
                } else if left == 0 {
                    RestartState::Complete(RestartOutcome::WaitTimedOut)
                } else {
                    RestartState::Waiting((left - 1) as u32)
                }
            },
            (RestartState::ReadyToLaunch(report), RestartEvent::LaunchDone(r)) => {
                match spec_error_of(r) {
                    None => RestartState::Complete(RestartOutcome::Launched(report)),
                    Some(e) => RestartState::Complete(RestartOutcome::LaunchFailed(e)),
                }
            },
            _ => self.state,
        };
        RestartController { state, ..self }
    }

    /// Feeds the outcome of the requested action into the controller, per
    /// [`RestartController::spec_step`].
    pub fn step(&mut self, event: RestartEvent)
        requires
            old(self).accepts(event),
        ensures
            *final(self) == old(self).spec_step(event),
    {
        let state = match (self.state, event) {
            (RestartState::AwaitingShutdown, RestartEvent::ShutdownDone(r)) => {
                if matches!(r.phase, Phase::Success) {
                    RestartState::Waiting(self.max_polls)
                } else if matches!(r.phase, Phase::WaitSteamExit) {
                    RestartState::Complete(
                        RestartOutcome::WaitAborted(Error::WaitSteamExit(r.code)),
                    )
                } else {
                    RestartState::ReadyToLaunch(error_of(r))
                }
            },
            (RestartState::AwaitingKill, RestartEvent::KillDone(r, _)) => RestartState::ReadyToLaunch(
                error_of(r),
            ),
            (RestartState::Waiting(left), RestartEvent::RunningQueried(r, running)) => {
                if !matches!(r.phase, Phase::Success) {
                    RestartState::Complete(
                        RestartOutcome::WaitAborted(Error::WaitSteamExit(r.code)),
                    )
                } else if !running {
                    RestartState::ReadyToLaunch(None)
                } else if left == 0 {
                    RestartState::Complete(RestartOutcome::WaitTimedOut)
                } else {
                    RestartState::Waiting(left - 1)
                }
            },
            (RestartState::ReadyToLaunch(report), RestartEvent::LaunchDone(r)) => {
                match error_of(r) {
                    None => RestartState::Complete(RestartOutcome::Launched(report)),
                    Some(e) => RestartState::Complete(RestartOutcome::LaunchFailed(e)),
                }
            },
            _ => self.state,
        };
        self.state = state;
    }
}

/// Law: a graceful restart whose liveness query fails while waiting for the
/// client to exit completes with a wait-phase error carrying the native code,
/// and asks for no launch: its next action is already
/// [`RestartAction::Finished`].
pub proof fn lemma_wait_failure_aborts(c: RestartController, r: PhasedResult, running: bool)
    requires
        c.state matches RestartState::Waiting(_),
        r.phase != Phase::Success,
    ensures
        c.spec_step(RestartEvent::RunningQueried(r, running)).state == RestartState::Complete(
            RestartOutcome::WaitAborted(Error::WaitSteamExit(r.code)),
        ),
        c.spec_step(RestartEvent::RunningQueried(r, running)).spec_next_action()
            == RestartAction::Finished,
{
}

/// Law: a shutdown request that fails at the wait-for-exit phase likewise
/// completes with a wait-phase error and never reaches a launch.
pub proof fn lemma_shutdown_wait_failure_aborts(c: RestartController, r: PhasedResult)
    requires
        c.state == RestartState::AwaitingShutdown,
        r.phase == Phase::WaitSteamExit,
    ensures
        c.spec_step(RestartEvent::ShutdownDone(r)).state == RestartState::Complete(
            RestartOutcome::WaitAborted(Error::WaitSteamExit(r.code)),
        ),
        c.spec_step(RestartEvent::ShutdownDone(r)).spec_next_action() == RestartAction::Finished,
{
}

/// Law: a failed termination step other than a wait failure never prevents
/// the launch: the next action is one of the two launches, and the failure is
/// carried only as a report.
pub proof fn lemma_termination_failure_still_launches(c: RestartController, event: RestartEvent)
    requires
        match (c.state, event) {
            (RestartState::AwaitingShutdown, RestartEvent::ShutdownDone(r)) => r.phase
                != Phase::Success && r.phase != Phase::WaitSteamExit,
            (RestartState::AwaitingKill, RestartEvent::KillDone(r, _)) => r.phase != Phase::Success,
            _ => false,
        },
    ensures
        c.spec_step(event).state matches RestartState::ReadyToLaunch(f) && f is Some,
        c.spec_step(event).spec_next_action() == (if c.verify {
            RestartAction::LaunchVerified
        } else {
            RestartAction::LaunchFast
        }),
{
}

/// Law: once complete, a restart asks for nothing more.
pub proof fn lemma_complete_is_final(c: RestartController)
    requires
        c.state matches RestartState::Complete(_),
    ensures
        c.spec_next_action() == RestartAction::Finished,
{
}

} // verus!
