use chat_core::frame::{decode_frame, ClientAction};

#[test]
fn decodes_join_frame() {
    match decode_frame(r#"{"action":"join","conversation_id":5}"#) {
        Some(ClientAction::Join { conversation_id }) => assert_eq!(conversation_id, 5),
        other => panic!("expected join, got {:?}", other),
    }
}

#[test]
fn decodes_msg_frame() {
    match decode_frame(r#"{"action":"msg","conversation_id":7,"msg":"hello there"}"#) {
        Some(ClientAction::Msg { conversation_id, msg }) => {
            assert_eq!(conversation_id, 7);
            assert_eq!(msg, "hello there");
        }
        other => panic!("expected msg, got {:?}", other),
    }
}

#[test]
fn decodes_with_whitespace_and_negative_id() {
    match decode_frame(" { \"action\" : \"join\" ,\n\t\"conversation_id\" : -12 } ") {
        Some(ClientAction::Join { conversation_id }) => assert_eq!(conversation_id, -12),
        other => panic!("expected join, got {:?}", other),
    }
}

#[test]
fn decodes_string_escapes() {
    match decode_frame(r#"{"action":"msg","conversation_id":1,"msg":"a\"b\\c\nd\tf\/g\r\b\f"}"#) {
        Some(ClientAction::Msg { msg, .. }) => {
            assert_eq!(msg, "a\"b\\c\nd\tf/g\r\u{0008}\u{000c}");
        }
        other => panic!("expected msg, got {:?}", other),
    }
}

#[test]
fn decodes_extreme_conversation_ids() {
    match decode_frame(r#"{"action":"join","conversation_id":9223372036854775807}"#) {
        Some(ClientAction::Join { conversation_id }) => assert_eq!(conversation_id, i64::MAX),
        other => panic!("expected join, got {:?}", other),
    }
    match decode_frame(r#"{"action":"join","conversation_id":-9223372036854775808}"#) {
        Some(ClientAction::Join { conversation_id }) => assert_eq!(conversation_id, i64::MIN),
        other => panic!("expected join, got {:?}", other),
    }
}

#[test]
fn rejects_malformed_frames() {
    for bad in [
        "",
        "ping",
        "{}",
        r#"{"action":"leave","conversation_id":5}"#,
        r#"{"action":"join"}"#,
        r#"{"action":"join","conversation_id":}"#,
        r#"{"action":"join","conversation_id":"5"}"#,
        r#"{"action":"join","conversation_id":01}"#,
        r#"{"action":"join","conversation_id":5"#,
        r#"{"action":"join","conversation_id":5}x"#,
        r#"{"action":"join","conversation_id":9223372036854775808}"#,
        r#"{"action":"join","conversation_id":--5}"#,
        r#"{"action":"msg","conversation_id":5}"#,
        r#"{"action":"msg","conversation_id":5,"msg":"a"#,
        r#"{"action":"msg","conversation_id":5,"msg":"a\x"}"#,
        r#"{"conversation_id":5,"action":"join"}"#,
        r#"["action","join"]"#,
    ] {
        assert!(decode_frame(bad).is_none(), "should reject: {}", bad);
    }
}

#[test]
fn accepts_zero_conversation_id() {
    match decode_frame(r#"{"action":"join","conversation_id":0}"#) {
        Some(ClientAction::Join { conversation_id }) => assert_eq!(conversation_id, 0),
        other => panic!("expected join, got {:?}", other),
    }
    match decode_frame(r#"{"action":"join","conversation_id":-0}"#) {
        Some(ClientAction::Join { conversation_id }) => assert_eq!(conversation_id, 0),
        other => panic!("expected join, got {:?}", other),
    }
}

#[test]
fn decodes_escaped_action_spelling() {
    match decode_frame(r#"{"action":"\u0000join","conversation_id":1}"#) {
        None => {}
        other => panic!("unicode escapes are not accepted, got {:?}", other),
    }
    match decode_frame(r#"{"ac\tion":"join","conversation_id":1}"#) {
        None => {}
        other => panic!("key with tab is not the action key, got {:?}", other),
    }
}

#[test]
fn decodes_empty_msg() {
    match decode_frame(r#"{"action":"msg","conversation_id":3,"msg":""}"#) {
        Some(ClientAction::Msg { conversation_id, msg }) => {
            assert_eq!(conversation_id, 3);
            assert_eq!(msg, "");
        }
        other => panic!("expected msg, got {:?}", other),
    }
}
