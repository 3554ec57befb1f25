use diverter::steam::{
    err_opt, error_of, exit_code, flag_outcome, stored_auto_login_user, unit_outcome, Error, Phase,
    PhasedResult, RestartAction, RestartController, RestartEvent, RestartMethod, RestartOutcome,
    RestartState,
};
use diverter::{Steam, Username, UsernameError};

fn ok_result() -> PhasedResult {
    PhasedResult { phase: Phase::Success, code: 0 }
}

fn failed(phase: Phase, code: u32) -> PhasedResult {
    PhasedResult { phase, code }
}

#[test]
fn every_failing_phase_maps_to_its_error() {
    assert_eq!(error_of(ok_result()), None);
    assert_eq!(
        error_of(failed(Phase::ReadSteamRegistry, 5)),
        Some(Error::ReadSteamRegistry(5))
    );
    assert_eq!(
        error_of(failed(Phase::WriteSteamRegistry, 6)),
        Some(Error::WriteSteamRegistry(6))
    );
    assert_eq!(error_of(failed(Phase::LaunchSteam, 7)), Some(Error::LaunchSteam(7)));
    assert_eq!(error_of(failed(Phase::WaitSteamExit, 8)), Some(Error::WaitSteamExit(8)));
    assert_eq!(error_of(failed(Phase::EnumProcesses, 9)), Some(Error::EnumProcesses(9)));
    assert_eq!(error_of(failed(Phase::KillSteam, 10)), Some(Error::KillSteam(10)));
    assert_eq!(error_of(failed(Phase::FileOpenVdf, 11)), Some(Error::VdfOpen(11)));
}

#[test]
fn err_opt_prefers_the_error() {
    assert_eq!(err_opt::<u32, Error>(None, 7), Ok(7));
    assert_eq!(
        err_opt::<u32, Error>(Some(Error::KillSteam(3)), 7),
        Err(Error::KillSteam(3))
    );
}

#[test]
fn kill_with_no_match_is_ok_false() {
    // a kill that found nothing to terminate is success, not an error
    assert_eq!(flag_outcome(ok_result(), 0), Ok(false));
    assert_eq!(flag_outcome(ok_result(), 1), Ok(true));
    assert_eq!(
        flag_outcome(failed(Phase::KillSteam, 5), 0),
        Err(Error::KillSteam(5))
    );
}

#[test]
fn unit_outcome_translates() {
    assert_eq!(unit_outcome(ok_result()), Ok(()));
    assert_eq!(
        unit_outcome(failed(Phase::LaunchSteam, 2)),
        Err(Error::LaunchSteam(2))
    );
}

#[test]
fn stored_identity_read_failures_keep_their_phase() {
    assert_eq!(
        stored_auto_login_user(failed(Phase::ReadSteamRegistry, 2), b"alice"),
        Err(Error::ReadSteamRegistry(2))
    );
}

#[test]
fn stored_identity_is_revalidated() {
    let u = stored_auto_login_user(ok_result(), b"Alice").unwrap();
    assert_eq!(u.as_bytes(), b"alice");
    assert_eq!(
        stored_auto_login_user(ok_result(), b"a b"),
        Err(Error::InvalidUsernameInRegistry(UsernameError::IllegalCharacters))
    );
    assert_eq!(
        stored_auto_login_user(ok_result(), b"ab"),
        Err(Error::InvalidUsernameInRegistry(UsernameError::TooShort))
    );
}

#[test]
fn exit_codes_distinguish_bad_data_from_failures() {
    assert_eq!(
        exit_code(&Error::InvalidUsernameInRegistry(UsernameError::TooShort)),
        78
    );
    assert_eq!(exit_code(&Error::LaunchSteam(1)), 69);
    assert_eq!(exit_code(&Error::ReadSteamRegistry(1)), 69);
    assert_eq!(exit_code(&Error::VdfOpen(1)), 69);
}

#[test]
fn steam_handle_round_trip() {
    let mut path = [0u16; 260];
    for (i, c) in "C:\\steam".encode_utf16().enumerate() {
        path[i] = c;
    }
    let s = Steam::from_parts(8, path).unwrap();
    assert_eq!(s.path_len(), 8);
    assert_eq!(s.path_units().len(), 8);
    let t = Steam::from_parts(8, path).unwrap();
    assert!(s.same_as(&t));
    let u = Steam::from_parts(7, path).unwrap();
    assert!(!s.same_as(&u));
    assert!(Steam::from_parts(261, path).is_none());
}

#[test]
fn graceful_restart_walks_to_launch() {
    let mut c = RestartController::new(RestartMethod::Graceful, false, 10);
    assert_eq!(c.next_action(), RestartAction::RequestShutdown);
    c.step(RestartEvent::ShutdownDone(ok_result()));
    assert_eq!(c.next_action(), RestartAction::PollRunning);
    c.step(RestartEvent::RunningQueried(ok_result(), true));
    assert_eq!(c.next_action(), RestartAction::PollRunning);
    c.step(RestartEvent::RunningQueried(ok_result(), false));
    assert_eq!(c.next_action(), RestartAction::LaunchFast);
    c.step(RestartEvent::LaunchDone(ok_result()));
    assert_eq!(c.next_action(), RestartAction::Finished);
    assert_eq!(c.state, RestartState::Complete(RestartOutcome::Launched(None)));
}

#[test]
fn wait_failure_aborts_without_launch() {
    let mut c = RestartController::new(RestartMethod::Graceful, true, 10);
    c.step(RestartEvent::ShutdownDone(ok_result()));
    c.step(RestartEvent::RunningQueried(failed(Phase::EnumProcesses, 33), true));
    assert_eq!(
        c.state,
        RestartState::Complete(RestartOutcome::WaitAborted(Error::WaitSteamExit(33)))
    );
    assert_eq!(c.next_action(), RestartAction::Finished);
}

#[test]
fn shutdown_wait_phase_failure_aborts_without_launch() {
    let mut c = RestartController::new(RestartMethod::Graceful, true, 10);
    c.step(RestartEvent::ShutdownDone(failed(Phase::WaitSteamExit, 21)));
    assert_eq!(
        c.state,
        RestartState::Complete(RestartOutcome::WaitAborted(Error::WaitSteamExit(21)))
    );
    assert_eq!(c.next_action(), RestartAction::Finished);
}

#[test]
fn shutdown_invoke_failure_still_launches() {
    let mut c = RestartController::new(RestartMethod::Graceful, true, 10);
    c.step(RestartEvent::ShutdownDone(failed(Phase::LaunchSteam, 4)));
    assert_eq!(c.next_action(), RestartAction::LaunchVerified);
    assert_eq!(
        c.state,
        RestartState::ReadyToLaunch(Some(Error::LaunchSteam(4)))
    );
    c.step(RestartEvent::LaunchDone(ok_result()));
    assert_eq!(
        c.state,
        RestartState::Complete(RestartOutcome::Launched(Some(Error::LaunchSteam(4))))
    );
}

#[test]
fn forceful_restart_launches_immediately_after_kill() {
    let mut c = RestartController::new(RestartMethod::Forceful, false, 0);
    assert_eq!(c.next_action(), RestartAction::KillProcesses);
    // nothing was running: still a success, and the launch proceeds
    c.step(RestartEvent::KillDone(ok_result(), false));
    assert_eq!(c.next_action(), RestartAction::LaunchFast);
    c.step(RestartEvent::LaunchDone(ok_result()));
    assert_eq!(c.state, RestartState::Complete(RestartOutcome::Launched(None)));
}

#[test]
fn kill_failure_still_launches() {
    let mut c = RestartController::new(RestartMethod::Forceful, true, 0);
    c.step(RestartEvent::KillDone(failed(Phase::KillSteam, 13), false));
    assert_eq!(c.next_action(), RestartAction::LaunchVerified);
    assert_eq!(c.state, RestartState::ReadyToLaunch(Some(Error::KillSteam(13))));
}

#[test]
fn polling_budget_is_bounded() {
    let mut c = RestartController::new(RestartMethod::Graceful, false, 1);
    c.step(RestartEvent::ShutdownDone(ok_result()));
    c.step(RestartEvent::RunningQueried(ok_result(), true));
    assert_eq!(c.next_action(), RestartAction::PollRunning);
    c.step(RestartEvent::RunningQueried(ok_result(), true));
    assert_eq!(c.state, RestartState::Complete(RestartOutcome::WaitTimedOut));
    assert_eq!(c.next_action(), RestartAction::Finished);
}

#[test]
fn launch_failure_is_reported() {
    let mut c = RestartController::new(RestartMethod::Forceful, false, 0);
    c.step(RestartEvent::KillDone(ok_result(), true));
    c.step(RestartEvent::LaunchDone(failed(Phase::LaunchSteam, 2)));
    assert_eq!(
        c.state,
        RestartState::Complete(RestartOutcome::LaunchFailed(Error::LaunchSteam(2)))
    );
}

#[test]
fn verify_flag_selects_the_launch_action() {
    let mut c = RestartController::new(RestartMethod::Forceful, true, 0);
    c.step(RestartEvent::KillDone(ok_result(), true));
    assert_eq!(c.next_action(), RestartAction::LaunchVerified);
    let mut c = RestartController::new(RestartMethod::Forceful, false, 0);
    c.step(RestartEvent::KillDone(ok_result(), true));
    assert_eq!(c.next_action(), RestartAction::LaunchFast);
}

#[test]
fn byte_and_wide_comparisons() {
    assert!(diverter::util::bytes_eq(b"abc", b"abc"));
    assert!(!diverter::util::bytes_eq(b"abc", b"abd"));
    assert!(!diverter::util::bytes_eq(b"abc", b"ab"));
    assert!(diverter::util::bytes_eq(b"", b""));
    assert!(diverter::util::wide_eq(&[1, 2], &[1, 2]));
    assert!(!diverter::util::wide_eq(&[1, 2], &[1, 3]));
    assert!(!diverter::util::wide_eq(&[1, 2], &[1]));
}
