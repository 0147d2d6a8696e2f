use lol_assistant::application::{ApplicationError, LeagueClientReadError};
use lol_assistant::automation::{
    ready_check_start, ready_check_step, ReadyCheckAction, ReadyCheckEvent, ReadyCheckState,
    READY_CHECK_ATTEMPTS,
};

/// A client whose phase is ReadyCheck until a given number of accepts.
struct FakeClient {
    phase_ready: bool,
    clears_after: Option<i64>,
    accept_error: Option<LeagueClientReadError>,
    accepts: i64,
    activities: Vec<(String, String)>,
    slept_ms: u64,
}

impl FakeClient {
    fn new(phase_ready: bool) -> Self {
        FakeClient {
            phase_ready,
            clears_after: None,
            accept_error: None,
            accepts: 0,
            activities: Vec::new(),
            slept_ms: 0,
        }
    }

    fn run(&mut self, auto_accept_enabled: bool) -> Result<(), ApplicationError> {
        let (mut state, mut action) = ready_check_start(auto_accept_enabled);
        let mut steps = 0;
        loop {
            steps += 1;
            assert!(steps <= 6 * READY_CHECK_ATTEMPTS + 2, "the machine must end");
            let event = match action {
                ReadyCheckAction::ReadPhase => ReadyCheckEvent::Phase(self.phase_ready),
                ReadyCheckAction::Accept => {
                    self.accepts += 1;
                    if let Some(target) = self.clears_after {
                        if self.accepts >= target {
                            self.phase_ready = false;
                        }
                    }
                    match &self.accept_error {
                        Some(error) => ReadyCheckEvent::AcceptError(error.clone()),
                        None => ReadyCheckEvent::Accepted,
                    }
                }
                ReadyCheckAction::Sleep(ms) => {
                    self.slept_ms += ms;
                    ReadyCheckEvent::Slept
                }
                ReadyCheckAction::Finish(result) => return result,
                ReadyCheckAction::FailWithActivity { title, body, error } => {
                    self.activities.push((title, body));
                    return Err(error);
                }
            };
            let next = ready_check_step(state, event);
            state = next.0;
            action = next.1;
        }
    }
}

#[test]
fn ready_check_automation_respects_auto_accept_setting() {
    let mut client = FakeClient::new(true);
    client.run(false).expect("automation runs");
    assert_eq!(client.accepts, 0);
}

#[test]
fn ready_check_automation_calls_reader_when_enabled_and_ready_check_is_active() {
    let mut client = FakeClient::new(true);
    client.clears_after = Some(1);
    client.run(true).expect("automation runs");
    assert_eq!(client.accepts, 1);
}

#[test]
fn ready_check_automation_retries_until_phase_changes() {
    let mut client = FakeClient::new(true);
    client.clears_after = Some(3);
    client.run(true).expect("automation runs");
    assert_eq!(client.accepts, 3);
}

#[test]
fn ready_check_automation_records_system_activity_when_ready_check_stays_active() {
    let mut client = FakeClient::new(true);
    let error = client.run(true).expect_err("automation should fail");
    assert_eq!(
        error.message(),
        "Auto-accept did not move the client out of ReadyCheck after multiple verification attempts"
    );
    assert_eq!(client.accepts, 4);
    assert_eq!(client.activities.len(), 1);
    assert_eq!(client.activities[0].0, "Lobby automation requires manual accept");
}

#[test]
fn ready_check_automation_records_system_activity_when_accept_call_errors() {
    let mut client = FakeClient::new(true);
    client.accept_error = Some(LeagueClientReadError::ClientUnavailable(
        "League Client unavailable".to_string(),
    ));
    let error = client.run(true).expect_err("automation should fail");
    assert_eq!(error.code(), "clientUnavailable");
    assert_eq!(client.accepts, 1);
    assert_eq!(client.activities.len(), 1);
    assert_eq!(
        client.activities[0].1,
        "Auto-accept could not reach the League Client: League Client unavailable"
    );
}

#[test]
fn ready_check_automation_treats_accept_error_as_success_when_phase_moves() {
    let mut client = FakeClient::new(true);
    client.clears_after = Some(1);
    client.accept_error = Some(LeagueClientReadError::Integration(
        "Ready check response was unavailable".to_string(),
    ));
    client.run(true).expect("phase movement confirms accept");
    assert_eq!(client.accepts, 1);
    assert!(client.activities.is_empty());
}

#[test]
fn ready_check_skips_when_no_ready_check_is_showing() {
    let mut client = FakeClient::new(false);
    client.run(true).expect("nothing to accept");
    assert_eq!(client.accepts, 0);
}

#[test]
fn ready_check_waits_between_attempts() {
    let mut client = FakeClient::new(true);
    let _ = client.run(true);
    assert_eq!(client.slept_ms, 500 + 1000 + 2000);
}

#[test]
fn ready_check_phase_errors_end_the_run() {
    let (state, _) = ready_check_start(true);
    let (next, action) = ready_check_step(
        state,
        ReadyCheckEvent::PhaseError(LeagueClientReadError::ClientAccess("denied".to_string())),
    );
    assert_eq!(next, ReadyCheckState::Done);
    assert_eq!(
        action,
        ReadyCheckAction::Finish(Err(ApplicationError::ClientAccess("denied".to_string())))
    );
}
