//! Lobby automation decisions. Accepting a ready check alternates client calls, waits and
//! decisions; the decisions are the state machine below, and the caller performs each
//! action and reports what came of it.

use vstd::prelude::*;
use crate::application::{ApplicationError, LeagueClientReadError, from_read_error_spec};
use crate::text::concat2;

verus! {

/// How many accept requests a ready check gets at most.
pub const READY_CHECK_ATTEMPTS: usize = 4;

/// The wait after each accept attempt before the phase is checked again, in
/// milliseconds; the last attempt is not followed by a wait.
pub open spec fn retry_delay_spec(attempt: nat) -> u64 {
    if attempt == 0 {
        500
    } else if attempt == 1 {
        1000
    } else if attempt == 2 {
        2000
    } else {
        0
    }
}

/// The wait after accept attempt `attempt` (see `retry_delay_spec`).
pub fn ready_check_retry_delay_ms(attempt: usize) -> (r: u64)
    ensures
        r == retry_delay_spec(attempt as nat),
{
    if attempt == 0 {
        500
    } else if attempt == 1 {
        1000
    } else if attempt == 2 {
        2000
    } else {
        0
    }
}

/// Where a ready-check acceptance stands.
#[derive(Debug, Clone, PartialEq, Eq)]
pub enum ReadyCheckState {
    /// Checking that a ready check is showing at all.
    Initial,
    /// Checking the phase before accept attempt `n`.
    PreAccept(usize),
    /// Accept attempt `n` is being sent.
    Accepting(usize),
    /// Accept attempt `n` failed with this error; checking the phase.
    AcceptFailed(usize, LeagueClientReadError),
    /// Checking the phase after accept attempt `n`.
    PostAccept(usize),
    /// Waiting after accept attempt `n`.
    Waiting(usize),
    /// Checking the phase after the wait of attempt `n`.
    PostDelay(usize),
    /// Finished.
    Done,
}

/// What the caller observed after performing an action.
#[derive(Debug, Clone, PartialEq, Eq)]
pub enum ReadyCheckEvent {
    /// The gameflow phase was read: whether it is `ReadyCheck`.
    Phase(bool),
    /// Reading the gameflow phase failed.
    PhaseError(LeagueClientReadError),
    /// The accept request succeeded.
    Accepted,
    /// The accept request failed.
    AcceptError(LeagueClientReadError),
    /// The wait is over.
    Slept,
}

/// What the caller does next.
#[derive(Debug, PartialEq, Eq)]
pub enum ReadyCheckAction {
    /// Read the gameflow phase and report `Phase` or `PhaseError`.
    ReadPhase,
    /// Send the accept request and report `Accepted` or `AcceptError`.
    Accept,
    /// Wait this many milliseconds and report `Slept`.
    Sleep(u64),
    /// Stop with this result.
    Finish(Result<(), ApplicationError>),
    /// Record a system activity entry with this title and body, then stop with the error.
    FailWithActivity { title: String, body: String, error: ApplicationError },
}

/// The attempt number of a state.
pub open spec fn attempt_of(state: ReadyCheckState) -> int {
    match state {
        ReadyCheckState::PreAccept(n) => n as int,
        ReadyCheckState::Accepting(n) => n as int,
        ReadyCheckState::AcceptFailed(n, _) => n as int,
        ReadyCheckState::PostAccept(n) => n as int,
        ReadyCheckState::Waiting(n) => n as int,
        ReadyCheckState::PostDelay(n) => n as int,
        _ => 0,
    }
}

/// A state the machine can be in: attempt numbers stay below `READY_CHECK_ATTEMPTS`.
pub open spec fn valid_state(state: ReadyCheckState) -> bool {
    match state {
        ReadyCheckState::Initial => true,
        ReadyCheckState::Done => true,
        _ => 0 <= attempt_of(state) < READY_CHECK_ATTEMPTS,
    }
}

/// The event a state waits for: a phase reading in the checking states, the accept
/// outcome while accepting, the end of the wait while waiting; nothing once done.
pub open spec fn expects(state: ReadyCheckState, event: ReadyCheckEvent) -> bool {
    match state {
        ReadyCheckState::Accepting(_) => event is Accepted || event is AcceptError,
        ReadyCheckState::Waiting(_) => event is Slept,
        ReadyCheckState::Done => false,
        _ => event is Phase || event is PhaseError,
    }
}

/// The number of steps a state can still take: it drops with every step.
pub open spec fn remaining_steps(state: ReadyCheckState) -> int {
    let stage = match state {
        ReadyCheckState::PreAccept(_) => 5int,
        ReadyCheckState::Accepting(_) => 4,
        ReadyCheckState::AcceptFailed(_, _) => 3,
        ReadyCheckState::PostAccept(_) => 3,
        ReadyCheckState::Waiting(_) => 2,
        ReadyCheckState::PostDelay(_) => 1,
        _ => 0,
    };
    match state {
        ReadyCheckState::Initial => 6 * READY_CHECK_ATTEMPTS + 1,
        ReadyCheckState::Done => 0,
        _ => 6 * (READY_CHECK_ATTEMPTS - 1 - attempt_of(state)) + stage,
    }
}

/// The message of the error that ends an acceptance that never left the ready check.
pub open spec fn stuck_message() -> Seq<char> {
    "Auto-accept did not move the client out of ReadyCheck after multiple verification attempts"@
}

/// The action that ends an acceptance whose request failed while the client stayed in the
/// ready check: an activity entry naming the client's error, and that error.
pub open spec fn accept_failed_action(e: LeagueClientReadError, action: ReadyCheckAction) -> bool {
    match action {
        ReadyCheckAction::FailWithActivity { title, body, error } => {
            &&& title@ == "Lobby automation accept failed"@
            &&& body@ == "Auto-accept could not reach the League Client: "@ + e.message_spec()
            &&& error == from_read_error_spec(e)
        },
        _ => false,
    }
}

/// The action that ends an acceptance after its last attempt: an activity entry asking for
/// a manual accept, and an integration error.
pub open spec fn stuck_action(action: ReadyCheckAction) -> bool {
    match action {
        ReadyCheckAction::FailWithActivity { title, body, error } => {
            &&& title@ == "Lobby automation requires manual accept"@
            &&& body@ == "Auto-accept retried, but the client stayed in ReadyCheck. Manual confirmation may still be needed."@
            &&& error == ApplicationError::Integration(error->Integration_0)
            &&& error->Integration_0@ == stuck_message()
        },
        _ => false,
    }
}

/// The first step: nothing to do when auto-accept is disabled, else read the phase.
pub fn ready_check_start(auto_accept_enabled: bool) -> (r: (ReadyCheckState, ReadyCheckAction))
    ensures
        !auto_accept_enabled ==> r.0 is Done && r.1 == ReadyCheckAction::Finish(Ok(())),
        auto_accept_enabled ==> r.0 is Initial && r.1 is ReadPhase,
{
    if auto_accept_enabled {
        (ReadyCheckState::Initial, ReadyCheckAction::ReadPhase)
    } else {
        (ReadyCheckState::Done, ReadyCheckAction::Finish(Ok(())))
    }
}

/// The next state and action after `event` in `state`. A phase that is no longer
/// `ReadyCheck` ends the acceptance successfully; an error reading the phase ends it with
/// that error. In the ready check, each attempt checks the phase, sends the accept, checks
/// again, waits, and checks once more before the next attempt. A failed accept ends with
/// an activity entry and the client's error, unless the phase has moved on. When the last
/// attempt leaves the client in the ready check, it ends with an activity entry and an
/// integration error.
pub fn ready_check_step(state: ReadyCheckState, event: ReadyCheckEvent) -> (r: (
    ReadyCheckState,
    ReadyCheckAction,
))
    requires
        valid_state(state),
        expects(state, event),
    ensures
        valid_state(r.0),
        r.0 !is Done ==> remaining_steps(r.0) < remaining_steps(state),
        r.0 is Done <==> (r.1 is Finish || r.1 is FailWithActivity),
        event == ReadyCheckEvent::Phase(false) ==> r == (
            ReadyCheckState::Done,
            ReadyCheckAction::Finish(Ok(())),
        ),
        event matches ReadyCheckEvent::PhaseError(e) ==> r == (
            ReadyCheckState::Done,
            ReadyCheckAction::Finish(Err(from_read_error_spec(e))),
        ),
        r.1 is Accept <==> (state is PreAccept && event == ReadyCheckEvent::Phase(true)),
        r.1 is Accept ==> r.0 == ReadyCheckState::Accepting(attempt_of(state) as usize),
        r.1 matches ReadyCheckAction::Finish(res) ==> (res is Ok <==> event == ReadyCheckEvent::Phase(
            false,
        )),
        match state {
            ReadyCheckState::Initial => event == ReadyCheckEvent::Phase(true) ==> r == (
                ReadyCheckState::PreAccept(0),
                ReadyCheckAction::ReadPhase,
            ),
            ReadyCheckState::PreAccept(n) => event == ReadyCheckEvent::Phase(true) ==> r == (
                ReadyCheckState::Accepting(n),
                ReadyCheckAction::Accept,
            ),
            ReadyCheckState::Accepting(n) => match event {
                ReadyCheckEvent::Accepted => r == (ReadyCheckState::PostAccept(n), ReadyCheckAction::ReadPhase),
                ReadyCheckEvent::AcceptError(e) => r == (
                    ReadyCheckState::AcceptFailed(n, e),
                    ReadyCheckAction::ReadPhase,
                ),
                _ => true,
            },
            ReadyCheckState::PostAccept(n) => event == ReadyCheckEvent::Phase(true) ==> r == (if retry_delay_spec(
                n as nat,
            ) > 0 {
                (ReadyCheckState::Waiting(n), ReadyCheckAction::Sleep(retry_delay_spec(n as nat)))
            } else {
                (ReadyCheckState::PostDelay(n), ReadyCheckAction::ReadPhase)
            }),
            ReadyCheckState::Waiting(n) => event == ReadyCheckEvent::Slept ==> r == (
                ReadyCheckState::PostDelay(n),
                ReadyCheckAction::ReadPhase,
            ),
            _ => true,
        },
        match state {
            ReadyCheckState::PostDelay(n) => (n + 1 < READY_CHECK_ATTEMPTS && event
                == ReadyCheckEvent::Phase(true)) ==> r == (
                ReadyCheckState::PreAccept((n + 1) as usize),
                ReadyCheckAction::ReadPhase,
            ),
            _ => true,
        },
        match state {
            ReadyCheckState::AcceptFailed(_, e) => event == ReadyCheckEvent::Phase(true)
                ==> r.0 is Done && accept_failed_action(e, r.1),
            ReadyCheckState::PostDelay(n) => (n + 1 == READY_CHECK_ATTEMPTS && event
                == ReadyCheckEvent::Phase(true)) ==> r.0 is Done && stuck_action(r.1),
            _ => true,
        },
{
    match event {
        ReadyCheckEvent::Phase(false) => {
            return (ReadyCheckState::Done, ReadyCheckAction::Finish(Ok(())));
        },
        ReadyCheckEvent::PhaseError(e) => {
            return (
                ReadyCheckState::Done,
                ReadyCheckAction::Finish(Err(crate::application::application_error_from(e))),
            );
        },
        _ => {},
    }
    match state {
        ReadyCheckState::Initial => (ReadyCheckState::PreAccept(0), ReadyCheckAction::ReadPhase),
        ReadyCheckState::PreAccept(n) => (ReadyCheckState::Accepting(n), ReadyCheckAction::Accept),
        ReadyCheckState::Accepting(n) => match event {
            ReadyCheckEvent::AcceptError(e) => (
                ReadyCheckState::AcceptFailed(n, e),
                ReadyCheckAction::ReadPhase,
            ),
            _ => (ReadyCheckState::PostAccept(n), ReadyCheckAction::ReadPhase),
        },
        ReadyCheckState::AcceptFailed(_, e) => {
            let body = concat2(
                "Auto-accept could not reach the League Client: ",
                e.message().as_str(),
            );
            (
                ReadyCheckState::Done,
                ReadyCheckAction::FailWithActivity {
                    title: "Lobby automation accept failed".to_owned(),
                    body,
                    error: crate::application::application_error_from(e),
                },
            )
        },
        ReadyCheckState::PostAccept(n) => {
            let delay = ready_check_retry_delay_ms(n);
            if delay > 0 {
                (ReadyCheckState::Waiting(n), ReadyCheckAction::Sleep(delay))
            } else {
                (ReadyCheckState::PostDelay(n), ReadyCheckAction::ReadPhase)
            }
        },
        ReadyCheckState::Waiting(n) => (ReadyCheckState::PostDelay(n), ReadyCheckAction::ReadPhase),
        ReadyCheckState::PostDelay(n) => {
            if n + 1 < READY_CHECK_ATTEMPTS {
                (ReadyCheckState::PreAccept(n + 1), ReadyCheckAction::ReadPhase)
            } else {
                (
                    ReadyCheckState::Done,
                    ReadyCheckAction::FailWithActivity {
                        title: "Lobby automation requires manual accept".to_owned(),
                        body: "Auto-accept retried, but the client stayed in ReadyCheck. Manual confirmation may still be needed.".to_owned(),
                        error: ApplicationError::Integration(
                            "Auto-accept did not move the client out of ReadyCheck after multiple verification attempts".to_owned(),
                        ),
                    },
                )
            }
        },
        ReadyCheckState::Done => (ReadyCheckState::Done, ReadyCheckAction::Finish(Ok(()))),
    }
}

} // verus!
