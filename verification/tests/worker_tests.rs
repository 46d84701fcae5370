use mpclipboard_generic_client::clip::Clip;
use mpclipboard_generic_client::session::{SessionEvent, SessionInput, SessionState, WireFrame};
use mpclipboard_generic_client::worker::{squash_events, HostEvent, Worker};

fn connected_worker(now: u128) -> Worker {
    let mut worker = Worker::new(now);
    worker.session.advance(SessionInput::Schedule);
    worker.session.advance(SessionInput::ConnectFinished(Ok(())));
    worker.session.advance(SessionInput::AuthSent(Ok(())));
    let ev = worker.session.advance(SessionInput::AuthReply(Ok(true)));
    assert!(matches!(ev, Some(SessionEvent::Connected)));
    worker.handle_session_event(SessionEvent::Connected, now);
    worker
}

#[test]
fn local_clip_propagates_and_dedup_stops_the_echo() {
    // empty store, connected session; the host sends "hello" at t=1000
    let mut worker = connected_worker(0);
    let _ = worker.poll();
    let (is_new, frame) = worker.handle_command(Clip::with_timestamp("hello", 1000));
    assert!(is_new);
    assert_eq!(frame.unwrap(), "{\"text\":\"hello\",\"timestamp\":1000}");
    // the server echoes the same frame back
    let ev = worker
        .session
        .advance(SessionInput::Frame(Some(Ok(WireFrame::Text(
            "{\"text\":\"hello\",\"timestamp\":1000}".to_string(),
        )))));
    match ev {
        Some(clip_event @ SessionEvent::ReceivedClip(_)) => {
            worker.handle_session_event(clip_event, 1000);
        }
        _ => panic!("expected ReceivedClip"),
    }
    // the store already holds it: nothing surfaces to the host
    assert_eq!(worker.poll(), (None, None));
}

#[test]
fn remote_clip_surfaces_to_host() {
    // store empty, connected; the server sends "world" at t=2000;
    // the connectivity change from the connect is still pending
    let mut worker = connected_worker(0);
    let bytes_before = worker.outbox.bytes_written();
    let ev = worker
        .session
        .advance(SessionInput::Frame(Some(Ok(WireFrame::Text(
            "{\"text\":\"world\",\"timestamp\":2000}".to_string(),
        )))));
    match ev {
        Some(clip_event @ SessionEvent::ReceivedClip(_)) => {
            worker.handle_session_event(clip_event, 2000);
        }
        _ => panic!("expected ReceivedClip"),
    }
    assert_eq!(worker.poll(), (Some("world".to_string()), Some(true)));
    // at least one wakeup byte was written for the new event
    assert!(worker.outbox.bytes_written() > bytes_before);
    assert!(worker.outbox.bytes_written() >= worker.outbox.total_events());
}

#[test]
fn silence_triggers_reconnect() {
    // connected at t=0, no inbound traffic; at t=16 s the liveness check
    // forces a reconnect and the host sees connectivity go down
    let mut worker = connected_worker(0);
    let _ = worker.poll();
    for tick in 1..=15u128 {
        let ping = worker.handle_tick(tick * 1000);
        assert!(matches!(worker.session.state, SessionState::Connected));
        // a ping goes out every fifth tick while connected
        assert_eq!(ping, tick % 5 == 0);
    }
    assert_eq!(worker.poll(), (None, None));
    worker.handle_tick(16000);
    assert!(matches!(worker.session.state, SessionState::ReadyToConnect));
    assert_eq!(worker.session.retry.attempts_count, 0);
    assert_eq!(worker.poll(), (None, Some(false)));
    // the session schedules a fresh connect attempt
    let ev = worker.session.advance(SessionInput::Schedule);
    assert!(matches!(ev, Some(SessionEvent::StartedConnecting)));
}

#[test]
fn auth_rejection_surfaces_and_backs_off() {
    let mut worker = Worker::new(0);
    worker.session.advance(SessionInput::Schedule);
    worker.session.advance(SessionInput::ConnectFinished(Ok(())));
    worker.session.advance(SessionInput::AuthSent(Ok(())));
    let ev = worker.session.advance(SessionInput::AuthReply(Ok(false)));
    assert!(matches!(ev, Some(SessionEvent::AuthFailed)));
    worker.handle_session_event(SessionEvent::AuthFailed, 0);
    assert_eq!(worker.poll(), (None, Some(false)));
    let ev = worker.session.advance(SessionInput::SleepTimer);
    match ev {
        Some(SessionEvent::StartedSleeping(delay, _)) => assert_eq!(delay, 2),
        _ => panic!("expected StartedSleeping"),
    }
}

#[test]
fn after_stop_nothing_is_enqueued() {
    let mut worker = connected_worker(0);
    let _ = worker.poll();
    let events_before = worker.outbox.total_events();
    worker.stop();
    let (is_new, frame) = worker.handle_command(Clip::with_timestamp("late", 9999));
    assert!(!is_new);
    assert!(frame.is_none());
    worker.handle_session_event(SessionEvent::Disconnected, 10000);
    worker.handle_tick(20000);
    assert_eq!(worker.outbox.total_events(), events_before);
    assert_eq!(worker.poll(), (None, None));
}

#[test]
fn stale_inbound_clips_are_dropped() {
    // store has {"a", 100}
    let mut worker = connected_worker(0);
    let _ = worker.poll();
    worker.handle_session_event(
        SessionEvent::ReceivedClip(Clip::with_timestamp("a", 100)),
        100,
    );
    assert_eq!(worker.poll(), (Some("a".to_string()), None));
    // older timestamp: dropped
    worker.handle_session_event(
        SessionEvent::ReceivedClip(Clip::with_timestamp("b", 50)),
        101,
    );
    assert_eq!(worker.poll(), (None, None));
    // same text: dropped
    worker.handle_session_event(
        SessionEvent::ReceivedClip(Clip::with_timestamp("a", 200)),
        102,
    );
    assert_eq!(worker.poll(), (None, None));
    // newer and different: accepted
    worker.handle_session_event(
        SessionEvent::ReceivedClip(Clip::with_timestamp("c", 150)),
        103,
    );
    assert_eq!(worker.poll(), (Some("c".to_string()), None));
}

#[test]
fn pending_clip_flushes_on_connect() {
    let mut worker = Worker::new(0);
    let (is_new, frame) = worker.handle_command(Clip::with_timestamp("early", 5));
    assert!(is_new);
    assert!(frame.is_none());
    worker.session.advance(SessionInput::Schedule);
    worker.session.advance(SessionInput::ConnectFinished(Ok(())));
    worker.session.advance(SessionInput::AuthSent(Ok(())));
    worker.session.advance(SessionInput::AuthReply(Ok(true)));
    let flush = worker.handle_session_event(SessionEvent::Connected, 1);
    assert_eq!(flush.unwrap(), "{\"text\":\"early\",\"timestamp\":5}");
    worker.mark_pending_sent();
    let flush = worker.handle_session_event(SessionEvent::Connected, 2);
    assert!(flush.is_none());
}

#[test]
fn squash_keeps_the_latest_of_each_kind() {
    let events = vec![
        HostEvent::ConnectivityChanged(true),
        HostEvent::NewClip(Clip::with_timestamp("one", 1)),
        HostEvent::ConnectivityChanged(false),
        HostEvent::NewClip(Clip::with_timestamp("two", 2)),
    ];
    assert_eq!(
        squash_events(&events),
        (Some("two".to_string()), Some(false))
    );
    let none: Vec<HostEvent> = Vec::new();
    assert_eq!(squash_events(&none), (None, None));
    let only_clip = vec![HostEvent::NewClip(Clip::with_timestamp("x", 3))];
    assert_eq!(squash_events(&only_clip), (Some("x".to_string()), None));
}

#[test]
fn wakeup_bytes_cover_emitted_events() {
    let mut worker = connected_worker(0);
    worker.handle_session_event(SessionEvent::Disconnected, 1);
    worker.handle_session_event(SessionEvent::Connected, 2);
    worker.handle_session_event(
        SessionEvent::ReceivedClip(Clip::with_timestamp("n", 10)),
        3,
    );
    assert!(worker.outbox.bytes_written() >= worker.outbox.total_events());
    assert_eq!(worker.outbox.total_events(), 4);
    // polling drains the queue but never un-writes bytes
    let _ = worker.poll();
    assert!(worker.outbox.bytes_written() >= worker.outbox.total_events());
}

#[test]
fn pings_and_pongs_feed_the_liveness_deadline() {
    let mut worker = connected_worker(0);
    let _ = worker.poll();
    // inbound pong at t=10 s moves the deadline: silence at t=16 s is fine
    worker.handle_session_event(SessionEvent::ReceivedPong, 10000);
    worker.handle_tick(16000);
    assert!(matches!(worker.session.state, SessionState::Connected));
    // but 15 s past the pong the connection counts as dead
    worker.handle_tick(25001);
    assert!(matches!(worker.session.state, SessionState::ReadyToConnect));
}
