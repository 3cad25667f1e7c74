use duga::telegram::auth::{
    is_allowed_chat, parse_callback_data, strip_mention, CallbackAction, TelegramConfig, TelegramUser,
};

fn make_user(username: Option<&str>) -> TelegramUser {
    TelegramUser { id: 123, username: username.map(|s| s.into()) }
}

#[test]
fn test_is_allowed_chat() {
    let config = TelegramConfig {
        allowed_chat_ids: vec![123, 456],
        allow_all_chats_for_dev: false,
        ..Default::default()
    };
    assert!(is_allowed_chat(&config, 123, None));
    assert!(is_allowed_chat(&config, 456, None));
    assert!(!is_allowed_chat(&config, 789, None));
}

#[test]
fn test_is_allowed_chat_dev_mode() {
    let config = TelegramConfig {
        allowed_chat_ids: vec![],
        allow_all_chats_for_dev: true,
        ..Default::default()
    };
    assert!(is_allowed_chat(&config, 999, None));
}

#[test]
fn test_is_allowed_by_username() {
    let config = TelegramConfig {
        allowed_chat_ids: vec![],
        allowed_chat_usernames: vec!["testuser".into()],
        allow_all_chats_for_dev: false,
    };
    let user = make_user(Some("TestUser"));
    assert!(is_allowed_chat(&config, 999, Some(&user)));
    assert!(!is_allowed_chat(&config, 999, Some(&make_user(Some("other")))));
    assert!(!is_allowed_chat(&config, 999, None));
}

#[test]
fn test_strip_mention() {
    assert_eq!(strip_mention("@duga_bot do stuff", "duga_bot"), "do stuff");
    assert_eq!(strip_mention("just text", "duga_bot"), "just text");
    assert_eq!(strip_mention("@other_bot hi", "duga_bot"), "@other_bot hi");
}

#[test]
fn test_parse_callback_approve() {
    match parse_callback_data("approve:abc-123") {
        CallbackAction::Approve(id) => assert_eq!(id, "abc-123"),
        other => panic!("expected Approve, got {other:?}"),
    }
}

#[test]
fn test_parse_callback_deny() {
    match parse_callback_data("deny:abc-123") {
        CallbackAction::Deny(id) => assert_eq!(id, "abc-123"),
        other => panic!("expected Deny, got {other:?}"),
    }
}

#[test]
fn test_parse_callback_unknown() {
    match parse_callback_data("garbage") {
        CallbackAction::Unknown(s) => assert_eq!(s, "garbage"),
        _ => panic!("expected Unknown"),
    }
}

#[test]
fn authorize_allowed_chat() {
    let config = TelegramConfig {
        allowed_chat_ids: vec![123, 456],
        allow_all_chats_for_dev: false,
        ..Default::default()
    };
    assert!(is_allowed_chat(&config, 123, None));
    assert!(!is_allowed_chat(&config, 789, None));
}

#[test]
fn authorize_dev_mode_allows_all() {
    let config = TelegramConfig {
        allowed_chat_ids: vec![],
        allow_all_chats_for_dev: true,
        ..Default::default()
    };
    assert!(is_allowed_chat(&config, 999, None));
}

#[test]
fn strip_bot_mention() {
    assert_eq!(strip_mention("@duga_bot do stuff", "duga_bot"), "do stuff");
    assert_eq!(strip_mention("plain text", "duga_bot"), "plain text");
    assert_eq!(strip_mention("@other hi", "duga_bot"), "@other hi");
}

#[test]
fn parse_callback_approve_deny() {
    match parse_callback_data("approve:abc-123") {
        CallbackAction::Approve(id) => assert_eq!(id, "abc-123"),
        other => panic!("expected Approve, got {other:?}"),
    }
    match parse_callback_data("deny:xyz-456") {
        CallbackAction::Deny(id) => assert_eq!(id, "xyz-456"),
        other => panic!("expected Deny, got {other:?}"),
    }
}

#[test]
fn parse_callback_unknown() {
    match parse_callback_data("garbage") {
        CallbackAction::Unknown(s) => assert_eq!(s, "garbage"),
        _ => panic!("expected Unknown"),
    }
}

#[test]
fn callback_with_unknown_action_keeps_whole_data() {
    match parse_callback_data("retry:42") {
        CallbackAction::Unknown(s) => assert_eq!(s, "retry:42"),
        other => panic!("expected Unknown, got {other:?}"),
    }
}

#[test]
fn callback_payload_may_contain_colons() {
    match parse_callback_data("approve:a:b") {
        CallbackAction::Approve(id) => assert_eq!(id, "a:b"),
        other => panic!("expected Approve, got {other:?}"),
    }
}

#[test]
fn mention_is_stripped_with_surrounding_whitespace() {
    assert_eq!(strip_mention("  @duga_bot   hello  ", "duga_bot"), "hello");
    assert_eq!(strip_mention("@duga_bot", "duga_bot"), "");
}
