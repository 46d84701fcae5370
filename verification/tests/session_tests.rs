use mpclipboard_generic_client::clip::Clip;
use mpclipboard_generic_client::retry::Retry;
use mpclipboard_generic_client::session::{
    Session, SessionEvent, SessionFailure, SessionInput, SessionState, WireFrame,
};

fn connect(session: &mut Session) {
    let ev = session.advance(SessionInput::Schedule);
    assert!(matches!(ev, Some(SessionEvent::StartedConnecting)));
    let ev = session.advance(SessionInput::ConnectFinished(Ok(())));
    assert!(ev.is_none());
    let ev = session.advance(SessionInput::AuthSent(Ok(())));
    assert!(ev.is_none());
    let ev = session.advance(SessionInput::AuthReply(Ok(true)));
    assert!(matches!(ev, Some(SessionEvent::Connected)));
}

#[test]
fn happy_path_reaches_connected_and_resets_retry() {
    let mut session = Session::new();
    connect(&mut session);
    assert!(matches!(session.state, SessionState::Connected));
    assert_eq!(session.retry.attempts_count, 0);
}

#[test]
fn retry_delay_doubles_and_saturates() {
    let mut retry = Retry::starting();
    assert_eq!(retry.delay(), 1);
    let expected = [2u64, 4, 8, 16, 30, 30, 30];
    for want in expected {
        retry.track();
        assert_eq!(retry.delay(), want);
    }
}

#[test]
fn auth_rejection_backs_off() {
    // first failure sleeps 2 s; later ones 4, 8, 16, 30, 30
    let mut session = Session::new();
    let expected = [2u64, 4, 8, 16, 30, 30];
    for want in expected {
        let ev = session.advance(SessionInput::Schedule);
        assert!(matches!(ev, Some(SessionEvent::StartedConnecting)));
        let ev = session.advance(SessionInput::ConnectFinished(Ok(())));
        assert!(ev.is_none());
        let ev = session.advance(SessionInput::AuthSent(Ok(())));
        assert!(ev.is_none());
        let ev = session.advance(SessionInput::AuthReply(Ok(false)));
        assert!(matches!(ev, Some(SessionEvent::AuthFailed)));
        assert!(matches!(
            session.state,
            SessionState::Disconnected { failure: SessionFailure::AuthRejected }
        ));
        let ev = session.advance(SessionInput::SleepTimer);
        match ev {
            Some(SessionEvent::StartedSleeping(delay, SessionFailure::AuthRejected)) => {
                assert_eq!(delay, want);
            }
            _ => panic!("expected StartedSleeping"),
        }
        let ev = session.advance(SessionInput::SleepElapsed);
        assert!(matches!(ev, Some(SessionEvent::FinishedSleeping)));
        assert!(matches!(session.state, SessionState::ReadyToConnect));
    }
}

#[test]
fn connect_failure_goes_through_disconnected_and_sleeping() {
    let mut session = Session::new();
    session.advance(SessionInput::Schedule);
    let ev = session.advance(SessionInput::ConnectFinished(Err("refused".to_string())));
    assert!(matches!(ev, Some(SessionEvent::Disconnected)));
    let ev = session.advance(SessionInput::SleepTimer);
    match ev {
        Some(SessionEvent::StartedSleeping(delay, SessionFailure::ConnectFailed(e))) => {
            assert_eq!(delay, 2);
            assert_eq!(e, "refused");
        }
        _ => panic!("expected StartedSleeping with the connect error"),
    }
}

#[test]
fn frames_map_to_events() {
    let mut session = Session::new();
    connect(&mut session);
    let ev = session.advance(SessionInput::Frame(Some(Ok(WireFrame::Ping))));
    assert!(matches!(ev, Some(SessionEvent::ReceivedPing)));
    let ev = session.advance(SessionInput::Frame(Some(Ok(WireFrame::Pong))));
    assert!(matches!(ev, Some(SessionEvent::ReceivedPong)));
    let ev = session.advance(SessionInput::Frame(Some(Ok(WireFrame::Text(
        "{\"text\":\"world\",\"timestamp\":2000}".to_string(),
    )))));
    match ev {
        Some(SessionEvent::ReceivedClip(clip)) => {
            assert_eq!(clip, Clip::with_timestamp("world", 2000));
        }
        _ => panic!("expected ReceivedClip"),
    }
    // message-level problems do not close the session
    let ev = session.advance(SessionInput::Frame(Some(Ok(WireFrame::Text(
        "not json".to_string(),
    )))));
    assert!(matches!(ev, Some(SessionEvent::MessageError(_))));
    assert!(matches!(session.state, SessionState::Connected));
    let ev = session.advance(SessionInput::Frame(Some(Ok(WireFrame::Binary))));
    assert!(matches!(ev, Some(SessionEvent::MessageError(_))));
    assert!(matches!(session.state, SessionState::Connected));
    // stream end does close it
    let ev = session.advance(SessionInput::Frame(None));
    assert!(matches!(ev, Some(SessionEvent::Disconnected)));
    assert!(matches!(
        session.state,
        SessionState::Disconnected { failure: SessionFailure::StreamClosed }
    ));
}

#[test]
fn send_clip_is_a_frame_only_when_connected() {
    let mut session = Session::new();
    let frame = session.send_clip(Clip::with_timestamp("late", 1));
    assert!(frame.is_none());
    assert!(session.pending.is_some());
    assert!(!session.send_ping());

    connect(&mut session);
    let frame = session.send_clip(Clip::with_timestamp("now", 2));
    assert_eq!(frame.unwrap(), "{\"text\":\"now\",\"timestamp\":2}");
    assert!(session.send_ping());
}

#[test]
fn pending_clip_flushes_after_connect() {
    let mut session = Session::new();
    assert!(session.send_clip(Clip::with_timestamp("queued", 9)).is_none());
    assert!(session.pending_frame().is_none());
    connect(&mut session);
    let frame = session.pending_frame().unwrap();
    assert_eq!(frame, "{\"text\":\"queued\",\"timestamp\":9}");
    session.mark_pending_sent();
    assert!(session.pending_frame().is_none());
}

#[test]
fn reset_connection_is_idempotent() {
    let mut session = Session::new();
    connect(&mut session);
    session.advance(SessionInput::Frame(None));
    session.reset_connection();
    assert!(matches!(session.state, SessionState::ReadyToConnect));
    assert_eq!(session.retry.attempts_count, 0);
    session.reset_connection();
    assert!(matches!(session.state, SessionState::ReadyToConnect));
    assert_eq!(session.retry.attempts_count, 0);
}

#[test]
fn mismatched_inputs_change_nothing() {
    let mut session = Session::new();
    let ev = session.advance(SessionInput::SleepElapsed);
    assert!(ev.is_none());
    assert!(matches!(session.state, SessionState::ReadyToConnect));
    let ev = session.advance(SessionInput::Frame(Some(Ok(WireFrame::Ping))));
    assert!(ev.is_none());
    assert!(matches!(session.state, SessionState::ReadyToConnect));
}

#[test]
fn transport_error_tears_the_session_down() {
    let mut session = Session::new();
    connect(&mut session);
    let ev = session.advance(SessionInput::Frame(Some(Err("broken pipe".to_string()))));
    assert!(matches!(ev, Some(SessionEvent::Disconnected)));
    match &session.state {
        SessionState::Disconnected { failure: SessionFailure::StreamFailed(e) } => {
            assert_eq!(e, "broken pipe");
        }
        _ => panic!("expected Disconnected with the stream error"),
    }
    // the backoff path runs from here
    let ev = session.advance(SessionInput::SleepTimer);
    match ev {
        Some(SessionEvent::StartedSleeping(delay, SessionFailure::StreamFailed(_))) => {
            assert_eq!(delay, 1);
        }
        _ => panic!("expected StartedSleeping"),
    }
}
