use duga::telegram::bot::{
    LogEntry,
    attachment_reply, command_name, handle_command, log_entry, route_message, BotLogger, MessageRoute,
};
use duga::telegram::session::{CancelEffects, SessionManager};

#[test]
fn routing_by_text() {
    assert_eq!(route_message(false, Some("/start"), "bot"), MessageRoute::Ignore);
    assert_eq!(route_message(true, Some("/help me"), "bot"), MessageRoute::Command("/help me".into()));
    assert_eq!(route_message(true, Some("@bot  fix the build "), "bot"), MessageRoute::Task("fix the build".into()));
    assert_eq!(route_message(true, None, "bot"), MessageRoute::Attachment);
    assert_eq!(route_message(true, Some(" /start"), "bot"), MessageRoute::Task("/start".into()));
}

#[test]
fn command_names() {
    assert_eq!(command_name("/start"), "start");
    assert_eq!(command_name("/status now"), "status");
    assert_eq!(command_name("//stop"), "stop");
    assert_eq!(command_name("   "), "");
    assert_eq!(command_name("/help\tx"), "help");
}

#[test]
fn command_replies() {
    let mut m = SessionManager::new();
    assert_eq!(
        handle_command(&mut m, 1, "/start").reply,
        "👋 duga Telegram bot is ready.\n\nSend a message to start a task. Use /help for commands."
    );
    let help = handle_command(&mut m, 1, "/help").reply;
    assert!(help.starts_with("Commands:\n/start — Start the bot\n"));
    assert!(help.ends_with("/events — Show recent events"));
    assert_eq!(handle_command(&mut m, 1, "/status").reply, "📊 No active run.");
    assert_eq!(handle_command(&mut m, 1, "/memory").reply, "🧠 No memory for this chat yet.");
    assert_eq!(handle_command(&mut m, 1, "/skills").reply, "📚 Skills loaded from workspace and channel directories.");
    assert_eq!(handle_command(&mut m, 1, "/events").reply, "📋 Events are written to the replay JSONL file.");
    assert_eq!(
        handle_command(&mut m, 1, "/frobnicate x").reply,
        "Unknown command: /frobnicate\nUse /help for available commands."
    );
    m.start_run(1);
    assert_eq!(handle_command(&mut m, 1, "/status").reply, "📊 Active run in progress.");
    let out = handle_command(&mut m, 1, "/stop");
    assert_eq!(out.reply, "🛑 Cancelling current task…");
    assert_eq!(out.cancel, Some(CancelEffects { cancel_run: true, deny_confirmation: None }));
    assert!(m.session(1).unwrap().cancelled);
}

#[test]
fn attachment_replies() {
    assert_eq!(attachment_reply(false, None), "Attachments are disabled in this bot config.");
    assert_eq!(attachment_reply(true, None), "No supported attachments found in this message.");
    assert_eq!(attachment_reply(true, Some(&[])), "No supported attachments found in this message.");
    let paths = vec!["/d/1_a.pdf".to_string(), "/d/photo_1.jpg".to_string()];
    assert_eq!(attachment_reply(true, Some(&paths)), "📎 Downloaded:\n/d/1_a.pdf\n/d/photo_1.jpg");
}

#[test]
fn log_entry_from_message() {
    let e = log_entry(3, -7, None, "2024-01-01T00:00:00+00:00".into(), false, None);
    assert_eq!(e.direction, "out");
    assert_eq!(e.text, "[non-text message]");
    assert!(!e.is_edit);
    let e = log_entry(3, -7, Some(9), "t".into(), true, Some("hi"));
    assert_eq!(e.direction, "in");
    assert_eq!(e.text, "hi");
    assert_eq!(e.user_id, Some(9));
}

#[test]
fn bot_logger_paths() {
    let logger = BotLogger::new("/tmp/test_data".into());
    assert_eq!(logger.chat_dir(12345), "/tmp/test_data/12345");
    assert_eq!(logger.chat_dir(-100), "/tmp/test_data/-100");
    assert_eq!(logger.log_path(5), "/tmp/test_data/5/log.jsonl");
}

#[test]
fn log_entry_direction_out() {
    let entry = LogEntry {
        message_id: 1,
        chat_id: 100,
        user_id: None,
        timestamp: "2024-01-01T00:00:00Z".into(),
        direction: "out".into(),
        text: "Response".into(),
        is_edit: true,
    };
    assert_eq!(entry.direction, "out");
    assert!(entry.is_edit);
}

#[test]
fn log_entry_cloneable() {
    let entry = LogEntry {
        message_id: 1,
        chat_id: 100,
        user_id: Some(999),
        timestamp: "now".into(),
        direction: "in".into(),
        text: "msg".into(),
        is_edit: false,
    };
    let cloned = entry.clone();
    assert_eq!(cloned.message_id, entry.message_id);
    assert_eq!(cloned.text, entry.text);
}

#[test]
fn bot_logger_chat_dir() {
    let logger = BotLogger::new("/tmp/logs".into());
    let dir = logger.chat_dir(-123);
    assert_eq!(dir, "/tmp/logs/-123");
}

#[test]
fn bot_logger_new_stores_path() {
    let logger = BotLogger::new("/data/bot".into());
    assert_eq!(logger.chat_dir(42), "/data/bot/42");
}
