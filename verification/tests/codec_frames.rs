use discord_gateway::codec::{decode_frame, DecodeError, FrameField};
use discord_gateway::discordmessage::DiscordMessage;

#[test]
fn hello_frame_decodes() {
    let r = decode_frame("{\"t\":null,\"s\":null,\"op\":10,\"d\":{\"heartbeat_interval\":41250}}");
    match r {
        Ok(DiscordMessage::Hello { d }) => assert_eq!(d.heartbeat_interval, 41250),
        other => panic!("expected Hello, got {:?}", other),
    }
}

#[test]
fn ready_frame_decodes_verbatim() {
    let text = "{\"t\":\"READY\",\"s\":1,\"op\":0,\"d\":{\"v\":6,\"user\":{\"id\":\"42\"},\"session_id\":\"abc\",\"guilds\":[{\"id\":\"g1\"},{\"id\":\"g2\"}]}}";
    match decode_frame(text) {
        Ok(DiscordMessage::Ready { s, d }) => {
            assert_eq!(s, 1);
            assert_eq!(d.v, 6);
            assert_eq!(d.user.id, "42");
            assert_eq!(d.user.username, None);
            assert_eq!(d.session_id, "abc");
            assert_eq!(d.guilds.len(), 2);
            assert_eq!(d.guilds[0].id, "g1");
            assert_eq!(d.guilds[1].id, "g2");
        },
        other => panic!("expected Ready, got {:?}", other),
    }
}

#[test]
fn resumed_frame_decodes() {
    let text = "{\"t\":\"RESUMED\",\"s\":12,\"op\":0,\"d\":{\"v\":6,\"session_id\":\"sess2\"}}";
    match decode_frame(text) {
        Ok(DiscordMessage::Resumed { s, d }) => {
            assert_eq!(s, 12);
            assert_eq!(d.session_id, "sess2");
        },
        other => panic!("expected Resumed, got {:?}", other),
    }
}

#[test]
fn message_create_decodes() {
    let text = "{\"t\":\"MESSAGE_CREATE\",\"s\":7,\"op\":0,\"d\":{\"id\":\"m1\",\"channel_id\":\"c1\",\"guild_id\":null,\"author\":{\"id\":\"u1\",\"username\":\"ann\"},\"content\":\"hi there\",\"timestamp\":\"2020-01-01T00:00:00Z\",\"edited_timestamp\":null,\"tts\":false,\"reactions\":[{\"count\":2,\"me\":true,\"emoji\":{\"id\":null,\"name\":\"smile\"}}]}}";
    match decode_frame(text) {
        Ok(DiscordMessage::MessageCreate { s, d }) => {
            assert_eq!(s, 7);
            assert_eq!(d.id, "m1");
            assert_eq!(d.channel_id, "c1");
            assert_eq!(d.guild_id, None);
            assert_eq!(d.author.id, "u1");
            assert_eq!(d.author.username.as_deref(), Some("ann"));
            assert_eq!(d.content, "hi there");
            assert!(!d.tts);
            let rs = d.reactions.expect("reactions");
            assert_eq!(rs.len(), 1);
            assert_eq!(rs[0].count, 2);
            assert!(rs[0].me);
            assert_eq!(rs[0].emoji.name.as_deref(), Some("smile"));
        },
        other => panic!("expected MessageCreate, got {:?}", other),
    }
}

#[test]
fn guild_create_decodes() {
    let text = "{\"t\":\"GUILD_CREATE\",\"s\":2,\"op\":0,\"d\":{\"id\":\"g\",\"name\":\"play\",\"owner_id\":\"o\",\"members\":[{\"user\":{\"id\":\"u\",\"bot\":true},\"roles\":[\"r1\",\"r2\"]}],\"channels\":[{\"id\":\"c\",\"type\":0,\"name\":\"bot-playground\",\"last_message_id\":\"m9\"}]}}";
    match decode_frame(text) {
        Ok(DiscordMessage::GuildCreate { s, d }) => {
            assert_eq!(s, 2);
            assert_eq!(d.id, "g");
            assert_eq!(d.name, "play");
            assert_eq!(d.owner_id, "o");
            assert_eq!(d.permissions, None);
            let ms = d.members.expect("members");
            assert_eq!(ms.len(), 1);
            assert_eq!(ms[0].user.as_ref().unwrap().id, "u");
            assert_eq!(ms[0].user.as_ref().unwrap().bot, Some(true));
            assert_eq!(ms[0].roles, vec!["r1".to_string(), "r2".to_string()]);
            let cs = d.channels.expect("channels");
            assert_eq!(cs.len(), 1);
            assert_eq!(cs[0].id, "c");
            assert_eq!(cs[0].kind, 0);
            assert_eq!(cs[0].name.as_deref(), Some("bot-playground"));
            assert_eq!(cs[0].last_message_id.as_deref(), Some("m9"));
        },
        other => panic!("expected GuildCreate, got {:?}", other),
    }
}

#[test]
fn presence_update_decodes() {
    let text = "{\"t\":\"PRESENCE_UPDATE\",\"s\":3,\"op\":0,\"d\":{\"user\":{\"id\":\"u2\"},\"game\":{\"name\":\"chess\",\"type\":0,\"created_at\":99},\"guild_id\":\"g\",\"client_status\":{\"web\":\"online\"},\"nick\":null}}";
    match decode_frame(text) {
        Ok(DiscordMessage::PresenceUpdate { s, d }) => {
            assert_eq!(s, 3);
            assert_eq!(d.user.id, "u2");
            let game = d.game.expect("game");
            assert_eq!(game.name, "chess");
            assert_eq!(game.created_at, 99);
            assert_eq!(d.guild_id, "g");
            assert_eq!(d.client_status.web.as_deref(), Some("online"));
            assert_eq!(d.nick, None);
        },
        other => panic!("expected PresenceUpdate, got {:?}", other),
    }
}

#[test]
fn unrecognized_event_never_fails() {
    let text = "{\"t\":\"TYPING_START\",\"s\":9,\"op\":0,\"d\":{\"user_id\":\"u\",\"channel_id\":\"c\",\"timestamp\":5}}";
    match decode_frame(text) {
        Ok(DiscordMessage::Unknown { s, t, d }) => {
            assert_eq!(s, 9);
            assert_eq!(t, "TYPING_START");
            assert_eq!(d, "{\"user_id\":\"u\",\"channel_id\":\"c\",\"timestamp\":5}");
        },
        other => panic!("expected Unknown, got {:?}", other),
    }
}

#[test]
fn payload_before_discriminators_is_malformed() {
    let r = decode_frame("{\"d\":{\"heartbeat_interval\":1},\"op\":10,\"t\":null,\"s\":null}");
    assert_eq!(r.unwrap_err(), DecodeError::MalformedFrame);
    let r2 = decode_frame("{\"op\":10,\"t\":null,\"d\":{\"heartbeat_interval\":1},\"s\":null}");
    assert_eq!(r2.unwrap_err(), DecodeError::MalformedFrame);
}

#[test]
fn missing_fields_are_distinct() {
    assert_eq!(
        decode_frame("{}").unwrap_err(),
        DecodeError::MissingField(FrameField::Op)
    );
    assert_eq!(
        decode_frame("{\"op\":10}").unwrap_err(),
        DecodeError::MissingField(FrameField::S)
    );
    assert_eq!(
        decode_frame("{\"op\":10,\"s\":null}").unwrap_err(),
        DecodeError::MissingField(FrameField::T)
    );
    assert_eq!(
        decode_frame("{\"op\":10,\"s\":null,\"t\":null}").unwrap_err(),
        DecodeError::MissingField(FrameField::D)
    );
}

#[test]
fn op_zero_requires_name_and_sequence() {
    let no_t = "{\"op\":0,\"s\":4,\"t\":null,\"d\":{}}";
    assert_eq!(
        decode_frame(no_t).unwrap_err(),
        DecodeError::MissingField(FrameField::T)
    );
    let no_s = "{\"op\":0,\"s\":null,\"t\":\"READY\",\"d\":{}}";
    assert_eq!(
        decode_frame(no_s).unwrap_err(),
        DecodeError::MissingField(FrameField::S)
    );
}

#[test]
fn unknown_opcode_is_reported() {
    let r = decode_frame("{\"op\":5,\"s\":null,\"t\":null,\"d\":{}}");
    assert_eq!(r.unwrap_err(), DecodeError::UnknownOpcode(5));
}

#[test]
fn invalid_session_and_heartbeat_ack_ignore_payload() {
    match decode_frame("{\"op\":9,\"s\":null,\"t\":null,\"d\":false}") {
        Ok(DiscordMessage::InvalidSession {}) => {},
        other => panic!("expected InvalidSession, got {:?}", other),
    }
    match decode_frame("{\"op\":11,\"s\":null,\"t\":null,\"d\":{\"anything\":[1,2,3]}}") {
        Ok(DiscordMessage::HeartbeatAck {}) => {},
        other => panic!("expected HeartbeatAck, got {:?}", other),
    }
}

#[test]
fn duplicate_discriminator_is_malformed() {
    let r = decode_frame("{\"op\":10,\"op\":10,\"s\":null,\"t\":null,\"d\":{\"heartbeat_interval\":1}}");
    assert_eq!(r.unwrap_err(), DecodeError::MalformedFrame);
}

#[test]
fn unknown_envelope_key_is_malformed() {
    let r = decode_frame("{\"op\":10,\"x\":1,\"s\":null,\"t\":null,\"d\":{\"heartbeat_interval\":1}}");
    assert_eq!(r.unwrap_err(), DecodeError::MalformedFrame);
}

#[test]
fn trailing_text_is_malformed() {
    let r = decode_frame("{\"op\":10,\"s\":null,\"t\":null,\"d\":{\"heartbeat_interval\":1}}x");
    assert_eq!(r.unwrap_err(), DecodeError::MalformedFrame);
}

#[test]
fn string_escapes_decode() {
    let text = "{\"t\":\"MESSAGE_CREATE\",\"s\":8,\"op\":0,\"d\":{\"id\":\"m\",\"channel_id\":\"c\",\"author\":{\"id\":\"u\"},\"content\":\"a\\\"b\\\\c\\nd\",\"timestamp\":\"t\",\"tts\":true}}";
    match decode_frame(text) {
        Ok(DiscordMessage::MessageCreate { d, .. }) => {
            assert_eq!(d.content, "a\"b\\c\nd");
            assert!(d.tts);
        },
        other => panic!("expected MessageCreate, got {:?}", other),
    }
}

#[test]
fn whitespace_between_tokens_is_accepted() {
    let text = " { \"op\" : 10 , \"s\" : null , \"t\" : null , \"d\" : { \"heartbeat_interval\" : 7 } } ";
    match decode_frame(text) {
        Ok(DiscordMessage::Hello { d }) => assert_eq!(d.heartbeat_interval, 7),
        other => panic!("expected Hello, got {:?}", other),
    }
}

#[test]
fn sequence_accessor_matches_variant() {
    let hello = decode_frame("{\"op\":10,\"s\":null,\"t\":null,\"d\":{\"heartbeat_interval\":1}}").unwrap();
    assert_eq!(hello.seq(), None);
    let unknown =
        decode_frame("{\"op\":0,\"s\":77,\"t\":\"X\",\"d\":{}}").unwrap();
    assert_eq!(unknown.seq(), Some(77));
}

#[test]
fn text_that_is_no_envelope_is_malformed() {
    assert_eq!(decode_frame("").unwrap_err(), DecodeError::MalformedFrame);
    assert_eq!(decode_frame("   ").unwrap_err(), DecodeError::MalformedFrame);
    assert_eq!(decode_frame("null").unwrap_err(), DecodeError::MalformedFrame);
    assert_eq!(decode_frame("[1,2]").unwrap_err(), DecodeError::MalformedFrame);
    assert_eq!(
        decode_frame("{\"op\":10,\"s\":null,\"t\":null,\"d\":{\"heartbeat_interval\":1}")
            .unwrap_err(),
        DecodeError::MalformedFrame
    );
}

#[test]
fn oversized_numbers_are_malformed() {
    // One past the largest value a sequence number can hold.
    let r = decode_frame("{\"op\":0,\"s\":18446744073709551616,\"t\":\"X\",\"d\":{}}");
    assert_eq!(r.unwrap_err(), DecodeError::MalformedFrame);
    // The largest value itself is fine.
    let ok = decode_frame("{\"op\":0,\"s\":18446744073709551615,\"t\":\"X\",\"d\":{}}").unwrap();
    assert_eq!(ok.seq(), Some(u64::MAX));
    // A version field must fit in 32 bits.
    let wide = "{\"t\":\"RESUMED\",\"s\":1,\"op\":0,\"d\":{\"v\":4294967296,\"session_id\":\"s\"}}";
    assert_eq!(decode_frame(wide).unwrap_err(), DecodeError::MalformedFrame);
}

#[test]
fn raw_payload_capture_respects_nested_text() {
    // Braces inside string literals must not confuse the payload scanner.
    let text = "{\"op\":0,\"s\":1,\"t\":\"X\",\"d\":{\"a\":\"}{\",\"b\":[1,{\"c\":\"]\"}]}}";
    match decode_frame(text) {
        Ok(DiscordMessage::Unknown { d, .. }) => {
            assert_eq!(d, "{\"a\":\"}{\",\"b\":[1,{\"c\":\"]\"}]}");
        },
        other => panic!("expected Unknown, got {:?}", other),
    }
}

#[test]
fn unknown_payload_may_be_any_value_shape() {
    for payload in ["7", "\"txt\"", "true", "null", "[]", "[1,[2,[3]]]"] {
        let text = format!("{{\"op\":0,\"s\":1,\"t\":\"X\",\"d\":{}}}", payload);
        match decode_frame(&text) {
            Ok(DiscordMessage::Unknown { d, .. }) => assert_eq!(d, payload),
            other => panic!("expected Unknown for {}, got {:?}", payload, other),
        }
    }
}
