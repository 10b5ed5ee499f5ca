use discord_gateway::session::ControlFrame;
use discord_gateway::wire::auth_header_value;
use discord_gateway::wire::{render_control_frame, render_post_message_body};

#[test]
fn identify_payload_text() {
    let c = ControlFrame::Identify { token: "tok".to_string() };
    assert_eq!(
        render_control_frame(&c),
        "{\"op\":2,\"d\":{\"token\":\"tok\",\"properties\":{\"$os\":\"linux\",\"$browser\":\"gateway\",\"$device\":\"gateway\"}}}"
    );
}

#[test]
fn resume_payload_text() {
    let c = ControlFrame::Resume {
        token: "tok".to_string(),
        session_id: "abc".to_string(),
        last_sequence: Some(1337),
    };
    assert_eq!(
        render_control_frame(&c),
        "{\"op\":6,\"d\":{\"token\":\"tok\",\"session_id\":\"abc\",\"seq\":1337}}"
    );
}

#[test]
fn resume_payload_without_sequence_sends_zero() {
    let c = ControlFrame::Resume {
        token: "t".to_string(),
        session_id: "s".to_string(),
        last_sequence: None,
    };
    assert_eq!(
        render_control_frame(&c),
        "{\"op\":6,\"d\":{\"token\":\"t\",\"session_id\":\"s\",\"seq\":0}}"
    );
}

#[test]
fn post_message_body_escapes_content() {
    assert_eq!(
        render_post_message_body("say \"hi\"\\now\n"),
        "{\"content\":\"say \\\"hi\\\"\\\\now\\n\"}"
    );
    assert_eq!(render_post_message_body("plain"), "{\"content\":\"plain\"}");
}

#[test]
fn auth_header_has_bot_prefix() {
    assert_eq!(auth_header_value("secret-token"), "Bot secret-token");
}
