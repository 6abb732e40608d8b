use btlescan::input::DataFormat;
use btlescan::input::InputMode;
use btlescan::input::InputState;
use btlescan::input::MAX_HEX_INPUT_LEN;
use btlescan::input::MAX_INPUT_LEN;
use btlescan::log::LogDirection;
use btlescan::log::LogEntry;
use btlescan::log::MessageLog;
use btlescan::log::MAX_LOG_ENTRIES;
use btlescan::panels::log_line_text;
use btlescan::panels::message_log_window;
use btlescan::session::App;
use btlescan::session::SessionError;

fn entry(msg: &str) -> LogEntry {
    LogEntry::with_timestamp("00:00:00.000", LogDirection::Info, msg.to_string())
}

#[test]
fn log_truncation_keeps_most_recent() {
    let mut log = MessageLog::new();
    let extra = 3;
    for i in 0..(MAX_LOG_ENTRIES + extra) {
        log.append(entry(&format!("msg {i}")));
    }
    assert_eq!(log.len(), MAX_LOG_ENTRIES);
    // The oldest surviving entry is the first after the dropped batch.
    assert_eq!(log.entry_at(0).message, format!("msg {extra}"));
    assert_eq!(
        log.entry_at(MAX_LOG_ENTRIES - 1).message,
        format!("msg {}", MAX_LOG_ENTRIES + extra - 1)
    );
}

#[test]
fn input_accepts_exactly_up_to_the_byte_cap() {
    let mut input = InputState::new();
    input.begin_edit();
    for _ in 0..MAX_INPUT_LEN {
        assert!(input.insert_char('a', MAX_INPUT_LEN));
    }
    assert_eq!(input.byte_len(), MAX_INPUT_LEN);
    // One byte over the cap is rejected with no partial insert.
    assert!(!input.insert_char('b', MAX_INPUT_LEN));
    assert_eq!(input.byte_len(), MAX_INPUT_LEN);

    let mut hex_input = InputState::new();
    hex_input.begin_edit();
    for _ in 0..MAX_HEX_INPUT_LEN {
        assert!(hex_input.insert_char('F', MAX_HEX_INPUT_LEN));
    }
    assert!(!hex_input.insert_char('F', MAX_HEX_INPUT_LEN));
    assert_eq!(hex_input.byte_len(), MAX_HEX_INPUT_LEN);
}

#[test]
fn multi_byte_insert_is_all_or_nothing() {
    let mut input = InputState::new();
    input.begin_edit();
    // A four-byte code point must not partially fit a three-byte gap.
    for _ in 0..(MAX_INPUT_LEN - 3) {
        assert!(input.insert_char('x', MAX_INPUT_LEN));
    }
    assert!(!input.insert_char('\u{1F600}', MAX_INPUT_LEN));
    assert_eq!(input.byte_len(), MAX_INPUT_LEN - 3);
}

#[test]
fn cursor_moves_by_code_points() {
    let mut input = InputState::new();
    input.begin_edit();
    assert!(input.insert_char('a', 64));
    assert!(input.insert_char('\u{00E9}', 64));
    assert!(input.insert_char('\u{1F600}', 64));
    assert!(input.insert_char('b', 64));
    assert_eq!(input.cursor(), 4);
    assert_eq!(input.byte_len(), 1 + 2 + 4 + 1);

    input.move_left();
    input.move_left();
    assert_eq!(input.cursor(), 2);
    input.backspace();
    assert_eq!(input.cursor(), 1);
    assert_eq!(input.byte_len(), 1 + 4 + 1);
    assert_eq!(input.text(), "a\u{1F600}b");

    input.move_right();
    input.move_right();
    input.move_right();
    assert_eq!(input.cursor(), 3);
    input.backspace();
    assert_eq!(input.text(), "a\u{1F600}");

    let committed = input.commit_edit();
    assert_eq!(committed, "a\u{1F600}");
    assert_eq!(input.mode(), InputMode::Normal);
    assert_eq!(input.text(), "");
}

#[test]
fn editing_mode_lifecycle() {
    let mut input = InputState::new();
    assert_eq!(input.mode(), InputMode::Normal);
    input.begin_edit();
    assert_eq!(input.mode(), InputMode::Editing);
    assert!(input.insert_char('h', 16));
    assert!(input.insert_char('i', 16));
    input.cancel_edit();
    assert_eq!(input.mode(), InputMode::Normal);
    assert_eq!(input.text(), "");
}

#[test]
fn format_caps_differ() {
    assert_eq!(DataFormat::Hex.max_input_bytes(), MAX_HEX_INPUT_LEN);
    assert_eq!(DataFormat::Text.max_input_bytes(), MAX_INPUT_LEN);
    assert_eq!(DataFormat::Hex.label(), "Hex");
    assert_eq!(DataFormat::Text.label(), "Text");
}

#[test]
fn test_message_log_empty() {
    let entries: Vec<LogEntry> = vec![];
    assert_eq!(message_log_window(entries.len(), 0, 10), (0, 0));
}

#[test]
fn test_message_log_with_entries() {
    let entries = vec![
        LogEntry::with_timestamp("12:00:00.000", LogDirection::Info, "Connected".into()),
        LogEntry::with_timestamp("12:00:01.000", LogDirection::Received, "00 3C".into()),
        LogEntry::with_timestamp("12:00:02.000", LogDirection::Sent, "00 50".into()),
        LogEntry::with_timestamp("12:00:03.000", LogDirection::Error, "Timeout".into()),
    ];
    assert_eq!(message_log_window(entries.len(), 0, 10), (0, 4));
    assert_eq!(log_line_text(&entries[0]), "[12:00:00.000] -- Connected");
    assert_eq!(log_line_text(&entries[1]), "[12:00:01.000] <- 00 3C");
    assert_eq!(log_line_text(&entries[2]), "[12:00:02.000] -> 00 50");
    assert_eq!(log_line_text(&entries[3]), "[12:00:03.000] !! Timeout");
}

#[test]
fn test_message_log_scroll() {
    let entries: Vec<LogEntry> = (0..20)
        .map(|i| LogEntry::with_timestamp("00:00:00.000", LogDirection::Info, format!("msg {i}")))
        .collect();
    // Height 8 leaves 5 visible rows; a scroll of 15 is clamped so the
    // window still ends inside the log.
    assert_eq!(message_log_window(entries.len(), 15, 8), (15, 20));
    assert_eq!(message_log_window(entries.len(), 17, 8), (15, 20));
}

#[test]
fn typing_past_the_cap_reports_input_too_long() {
    let mut app = App::new();
    app.toggle_format();
    assert_eq!(app.data_format, DataFormat::Text);
    app.begin_edit();
    for _ in 0..MAX_INPUT_LEN {
        assert!(app.input_char('x').is_ok());
    }
    assert_eq!(app.input_char('x'), Err(SessionError::InputTooLong));
    let text = app.commit_input();
    assert_eq!(text.len(), MAX_INPUT_LEN);
}

#[test]
fn gateway_failure_messages_render_exactly() {
    assert_eq!(
        SessionError::DiscoveryFailed("gatt".to_string()).message(),
        "Discovery failed: gatt"
    );
    assert_eq!(SessionError::ReadFailed("gone".to_string()).message(), "Read failed: gone");
    assert_eq!(
        SessionError::SubscribeFailed("busy".to_string()).message(),
        "Subscribe failed: busy"
    );
    assert_eq!(
        SessionError::UnsubscribeFailed("busy".to_string()).message(),
        "Unsubscribe failed: busy"
    );
    assert_eq!(
        SessionError::InvalidUuid("zz".to_string()).message(),
        "Invalid uuid: zz"
    );
    assert_eq!(
        SessionError::ServerStartFailed("radio".to_string()).message(),
        "Server start failed: radio"
    );
}
