use twitch_relay::session::{Feed, Session, SessionAction, SessionEvent, SessionState};
use twitch_relay::MAX_RETRIES;

fn fail(session: &mut Session, times: u64) {
    for n in 1..=times {
        assert_eq!(session.step(SessionEvent::AttemptDue), SessionAction::Connect);
        assert_eq!(session.state(), SessionState::Connecting);
        assert_eq!(session.attempts(), n);
        assert_eq!(session.step(SessionEvent::ConnectFailed), SessionAction::RetryAfter(n));
        assert_eq!(session.state(), SessionState::Disconnected);
    }
}

#[test]
fn new_session_is_idle() {
    let session = Session::new(Feed::Events, MAX_RETRIES);
    assert_eq!(session.state(), SessionState::Idle);
    assert_eq!(session.attempts(), 0);
    assert_eq!(session.ceiling(), 5);
    assert_eq!(session.feed(), Feed::Events);
    assert!(!session.is_finished());
}

#[test]
fn success_after_failures_resets_the_counter() {
    for failures in 0..MAX_RETRIES {
        let mut session = Session::new(Feed::Chat, MAX_RETRIES);
        fail(&mut session, failures);
        assert_eq!(session.attempts(), failures);
        assert_eq!(session.step(SessionEvent::AttemptDue), SessionAction::Connect);
        assert_eq!(session.step(SessionEvent::Connected), SessionAction::Handshake);
        assert_eq!(session.attempts(), 0);
        assert_eq!(session.state(), SessionState::Connected);
    }
}

#[test]
fn backoff_grows_by_one_second_per_failure() {
    let mut session = Session::new(Feed::Chat, MAX_RETRIES);
    let mut waits = Vec::new();
    for _ in 0..MAX_RETRIES {
        session.step(SessionEvent::AttemptDue);
        match session.step(SessionEvent::ConnectFailed) {
            SessionAction::RetryAfter(seconds) => waits.push(seconds),
            other => panic!("unexpected action {:?}", other),
        }
    }
    assert_eq!(waits, vec![1, 2, 3, 4, 5]);
}

#[test]
fn feed_is_abandoned_when_the_ceiling_is_passed() {
    let mut session = Session::new(Feed::Events, MAX_RETRIES);
    fail(&mut session, MAX_RETRIES);
    assert!(!session.is_finished());
    assert_eq!(session.step(SessionEvent::AttemptDue), SessionAction::Abandon);
    assert_eq!(session.state(), SessionState::Aborted);
    assert!(session.is_finished());
    assert_eq!(session.step(SessionEvent::ConnectFailed), SessionAction::Nothing);
    assert_eq!(session.step(SessionEvent::Connected), SessionAction::Nothing);
    assert_eq!(session.step(SessionEvent::AttemptDue), SessionAction::Nothing);
    assert_eq!(session.step(SessionEvent::Shutdown), SessionAction::Nothing);
    assert_eq!(session.state(), SessionState::Aborted);
    assert_eq!(session.attempts(), MAX_RETRIES);
}

#[test]
fn session_with_ceiling_zero_never_connects() {
    let mut session = Session::new(Feed::Chat, 0);
    assert_eq!(session.step(SessionEvent::AttemptDue), SessionAction::Abandon);
    assert_eq!(session.state(), SessionState::Aborted);
}

#[test]
fn counter_starts_anew_after_a_lost_connection() {
    let mut session = Session::new(Feed::Events, 2);
    fail(&mut session, 1);
    session.step(SessionEvent::AttemptDue);
    session.step(SessionEvent::Connected);
    assert_eq!(session.step(SessionEvent::ConnectionLost), SessionAction::RetryAfter(0));
    assert_eq!(session.state(), SessionState::Disconnected);
    assert_eq!(session.attempts(), 0);
    fail(&mut session, 2);
    assert_eq!(session.step(SessionEvent::AttemptDue), SessionAction::Abandon);
}

#[test]
fn huge_ceiling_does_not_overflow() {
    let mut session = Session::new(Feed::Chat, u64::MAX);
    fail(&mut session, 3);
    assert_eq!(session.attempts(), 3);
    assert_eq!(session.ceiling(), u64::MAX);
}

#[test]
fn shutdown_ends_the_session_from_every_live_state() {
    let mut idle = Session::new(Feed::Chat, 5);
    assert_eq!(idle.step(SessionEvent::Shutdown), SessionAction::StopTasks);

    let mut connecting = Session::new(Feed::Chat, 5);
    connecting.step(SessionEvent::AttemptDue);
    assert_eq!(connecting.step(SessionEvent::Shutdown), SessionAction::StopTasks);

    let mut connected = Session::new(Feed::Chat, 5);
    connected.step(SessionEvent::AttemptDue);
    connected.step(SessionEvent::Connected);
    assert_eq!(connected.step(SessionEvent::Shutdown), SessionAction::StopTasks);

    let mut disconnected = Session::new(Feed::Chat, 5);
    fail(&mut disconnected, 1);
    assert_eq!(disconnected.step(SessionEvent::Shutdown), SessionAction::StopTasks);

    for mut session in [idle, connecting, connected, disconnected] {
        assert_eq!(session.state(), SessionState::ShuttingDown);
        assert!(!session.is_finished());
        assert_eq!(session.step(SessionEvent::AttemptDue), SessionAction::Nothing);
        assert_eq!(session.step(SessionEvent::TasksStopped), SessionAction::Exit);
        assert_eq!(session.state(), SessionState::Terminated);
        assert!(session.is_finished());
        assert_eq!(session.step(SessionEvent::AttemptDue), SessionAction::Nothing);
        assert_eq!(session.state(), SessionState::Terminated);
    }
}

#[test]
fn events_that_do_not_fit_the_state_change_nothing() {
    let mut session = Session::new(Feed::Events, 5);
    for event in [
        SessionEvent::ConnectFailed,
        SessionEvent::Connected,
        SessionEvent::ConnectionLost,
        SessionEvent::TasksStopped,
    ] {
        assert_eq!(session.step(event), SessionAction::Nothing);
        assert_eq!(session.state(), SessionState::Idle);
        assert_eq!(session.attempts(), 0);
    }
    session.step(SessionEvent::AttemptDue);
    assert_eq!(session.step(SessionEvent::AttemptDue), SessionAction::Nothing);
    assert_eq!(session.step(SessionEvent::ConnectionLost), SessionAction::Nothing);
    assert_eq!(session.state(), SessionState::Connecting);
    assert_eq!(session.attempts(), 1);
}
