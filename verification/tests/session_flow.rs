use discord_gateway::codec::decode_frame;
use discord_gateway::discordmessage::DiscordMessage;
use discord_gateway::session::{
    ControlFrame, FatalError, Session, SessionAction, SessionState,
};

fn hello(interval: u64) -> DiscordMessage {
    decode_frame(&format!(
        "{{\"op\":10,\"s\":null,\"t\":null,\"d\":{{\"heartbeat_interval\":{}}}}}",
        interval
    ))
    .unwrap()
}

fn event(s: u64) -> DiscordMessage {
    decode_frame(&format!("{{\"op\":0,\"s\":{},\"t\":\"X\",\"d\":{{}}}}", s)).unwrap()
}

#[test]
fn identify_handshake_end_to_end() {
    let mut sess = Session::new("tok".to_string());
    assert_eq!(sess.state, SessionState::Connecting);
    sess.handshake_complete();
    assert_eq!(sess.state, SessionState::AwaitingHello);

    let r = sess.on_event(&hello(41250));
    assert_eq!(r, Ok(SessionAction::Absorbed));
    assert_eq!(sess.heartbeat_interval, Some(41250));

    let frame = sess.begin_identify();
    match frame {
        ControlFrame::Identify { token } => assert_eq!(token, "tok"),
        other => panic!("expected Identify, got {:?}", other),
    }
    assert_eq!(sess.state, SessionState::Identifying);

    let ready = decode_frame(
        "{\"t\":\"READY\",\"s\":1,\"op\":0,\"d\":{\"v\":6,\"user\":{\"id\":\"42\"},\"session_id\":\"abc\",\"guilds\":[]}}",
    )
    .unwrap();
    match &ready {
        DiscordMessage::Ready { d, .. } => assert_eq!(d.guilds.len(), 0),
        other => panic!("expected Ready, got {:?}", other),
    }
    let r = sess.on_event(&ready);
    assert_eq!(r, Ok(SessionAction::Absorbed));
    assert_eq!(sess.state, SessionState::Ready);
    assert_eq!(sess.session_id.as_deref(), Some("abc"));
    assert_eq!(sess.client_user_id.as_deref(), Some("42"));
    assert_eq!(sess.last_sequence, Some(1));
}

#[test]
fn hello_must_be_first() {
    let mut sess = Session::new("tok".to_string());
    sess.handshake_complete();
    let r = sess.on_event(&event(1));
    assert_eq!(r, Err(FatalError::UnexpectedFrame));
    assert_eq!(sess.state, SessionState::Terminated);
}

#[test]
fn resume_carries_captured_identity() {
    let mut sess = Session::new("tok".to_string());
    sess.handshake_complete();
    sess.on_event(&hello(1000)).unwrap();
    let frame = sess.begin_resume("sess-9".to_string(), Some(42));
    match frame {
        ControlFrame::Resume { token, session_id, last_sequence } => {
            assert_eq!(token, "tok");
            assert_eq!(session_id, "sess-9");
            assert_eq!(last_sequence, Some(42));
        },
        other => panic!("expected Resume, got {:?}", other),
    }
    assert_eq!(sess.state, SessionState::Resuming);
    assert_eq!(sess.last_sequence, Some(42));

    // Replayed events continue from the captured value, never below it.
    sess.on_event(&event(50)).unwrap();
    assert_eq!(sess.last_sequence, Some(50));
    sess.on_event(&event(10)).unwrap();
    assert_eq!(sess.last_sequence, Some(50));

    let resumed = decode_frame(
        "{\"t\":\"RESUMED\",\"s\":51,\"op\":0,\"d\":{\"v\":6,\"session_id\":\"sess-10\"}}",
    )
    .unwrap();
    let r = sess.on_event(&resumed);
    assert_eq!(r, Ok(SessionAction::Absorbed));
    assert_eq!(sess.state, SessionState::Ready);
    assert_eq!(sess.session_id.as_deref(), Some("sess-10"));
    assert_eq!(sess.last_sequence, Some(51));
}

#[test]
fn invalid_session_while_resuming_restarts_identify() {
    let mut sess = Session::new("tok".to_string());
    sess.handshake_complete();
    sess.on_event(&hello(1000)).unwrap();
    sess.begin_resume("old-sess".to_string(), Some(7));
    let invalid = decode_frame("{\"op\":9,\"s\":null,\"t\":null,\"d\":false}").unwrap();
    let r = sess.on_event(&invalid);
    assert_eq!(r, Ok(SessionAction::SendIdentify));
    assert_eq!(sess.state, SessionState::Identifying);
}

#[test]
fn last_sequence_is_non_decreasing() {
    let mut sess = Session::new("tok".to_string());
    sess.handshake_complete();
    sess.on_event(&hello(1000)).unwrap();
    sess.begin_identify();
    let ready = decode_frame(
        "{\"t\":\"READY\",\"s\":5,\"op\":0,\"d\":{\"v\":6,\"user\":{\"id\":\"1\"},\"session_id\":\"s\",\"guilds\":[]}}",
    )
    .unwrap();
    sess.on_event(&ready).unwrap();
    let mut observed = vec![sess.last_sequence.unwrap()];
    for s in [3u64, 7, 7, 2, 9] {
        sess.on_event(&event(s)).unwrap();
        observed.push(sess.last_sequence.unwrap());
    }
    for w in observed.windows(2) {
        assert!(w[0] <= w[1]);
    }
    assert_eq!(sess.last_sequence, Some(9));
}

#[test]
fn events_forward_while_ready() {
    let mut sess = Session::new("tok".to_string());
    sess.handshake_complete();
    sess.on_event(&hello(1000)).unwrap();
    sess.begin_identify();
    let ready = decode_frame(
        "{\"t\":\"READY\",\"s\":1,\"op\":0,\"d\":{\"v\":6,\"user\":{\"id\":\"1\"},\"session_id\":\"s\",\"guilds\":[]}}",
    )
    .unwrap();
    sess.on_event(&ready).unwrap();
    let r = sess.on_event(&event(2));
    assert_eq!(r, Ok(SessionAction::Forward));
}

#[test]
fn transport_closed_is_fatal() {
    let mut sess = Session::new("tok".to_string());
    sess.handshake_complete();
    let e = sess.on_transport_closed();
    assert_eq!(e, FatalError::TransportClosed);
    assert_eq!(sess.state, SessionState::Terminated);
}
