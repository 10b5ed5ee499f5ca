use discord_gateway::discordmessage::CreateMessageResponse;
use discord_gateway::payload::{decode_action_response, decode_channel_response};
use discord_gateway::rest::{run_retry, RestRetry, RetryDirective};

#[test]
fn rate_limited_twice_then_success() {
    let (ok, wait) = run_retry(&vec![Some(500), Some(500), None]);
    assert!(ok);
    assert_eq!(wait, 1000);
}

#[test]
fn rate_limited_on_all_attempts_is_exhausted() {
    let (ok, wait) = run_retry(&vec![Some(500), Some(500), Some(500)]);
    assert!(!ok);
    assert_eq!(wait, 1000);
}

#[test]
fn immediate_success_never_waits() {
    let (ok, wait) = run_retry(&vec![None, Some(9), Some(9)]);
    assert!(ok);
    assert_eq!(wait, 0);
}

#[test]
fn success_on_second_attempt_waits_once() {
    let (ok, wait) = run_retry(&vec![Some(250), None, Some(9)]);
    assert!(ok);
    assert_eq!(wait, 250);
}

#[test]
fn directives_follow_the_bound() {
    let mut m = RestRetry::new();
    assert_eq!(m.on_response(Some(500)), RetryDirective::Sleep { wait_ms: 500 });
    assert_eq!(m.on_response(Some(500)), RetryDirective::Sleep { wait_ms: 500 });
    assert_eq!(m.on_response(Some(500)), RetryDirective::GiveUp);
    assert_eq!(m.attempts_used, 3);
    assert_eq!(m.total_wait_ms, 1000);
}

#[test]
fn success_directive_is_accept() {
    let mut m = RestRetry::new();
    assert_eq!(m.on_response(None), RetryDirective::Accept);
    assert_eq!(m.total_wait_ms, 0);
}

#[test]
fn action_response_rate_limit_notice() {
    let r = decode_action_response(
        "{\"global\":false,\"message\":\"You are being rate limited.\",\"retry_after\":500}",
    );
    match r {
        Some(CreateMessageResponse::RateLimit { global, message, retry_after }) => {
            assert!(!global);
            assert_eq!(message, "You are being rate limited.");
            assert_eq!(retry_after, 500);
        },
        other => panic!("expected RateLimit, got {:?}", other),
    }
}

#[test]
fn action_response_success() {
    let r = decode_action_response("{\"id\":\"msg-1\",\"channel_id\":\"c\"}");
    match r {
        Some(CreateMessageResponse::Success { id }) => assert_eq!(id, "msg-1"),
        other => panic!("expected Success, got {:?}", other),
    }
    assert!(decode_action_response("{\"nope\":1}").is_none());
}

#[test]
fn channel_response_decodes() {
    let c = decode_channel_response("{\"id\":\"c7\",\"type\":1,\"recipients\":[{\"id\":\"u\"}]}")
        .expect("channel");
    assert_eq!(c.id, "c7");
    assert_eq!(c.kind, 1);
    assert_eq!(c.name, None);
}
