use btlescan::log::LogDirection;
use btlescan::server::handle_server_event;
use btlescan::server::ServerEvent;
use btlescan::server::ServerReply;
use btlescan::store::RequestStatus;
use btlescan::store::ValueStore;
use btlescan::uuid_id::parse_uuid;
use btlescan::uuid_id::UuidVal;

fn request_char() -> UuidVal {
    parse_uuid("00002a37-0000-1000-8000-00805f9b34fb").unwrap()
}

fn make_store(data: Vec<u8>) -> ValueStore {
    let mut store = ValueStore::new();
    store.set_value(data);
    store
}

fn log_of(log: Option<(LogDirection, String)>) -> (LogDirection, String) {
    log.expect("expected a log line")
}

#[test]
fn test_state_update_powered_on() {
    let mut store = make_store(vec![]);
    let outcome = handle_server_event(ServerEvent::StateUpdate { is_powered: true }, &mut store);
    let (direction, message) = log_of(outcome.log);
    assert_eq!(direction, LogDirection::Info);
    assert_eq!(message, "Bluetooth adapter powered on");
}

#[test]
fn test_state_update_powered_off() {
    let mut store = make_store(vec![]);
    let outcome = handle_server_event(ServerEvent::StateUpdate { is_powered: false }, &mut store);
    let (direction, message) = log_of(outcome.log);
    assert_eq!(direction, LogDirection::Info);
    assert_eq!(message, "Bluetooth adapter powered off");
}

#[test]
fn test_subscription_subscribed() {
    let mut store = make_store(vec![]);
    let outcome = handle_server_event(
        ServerEvent::SubscriptionUpdate { char_id: request_char(), subscribed: true },
        &mut store,
    );
    let (direction, message) = log_of(outcome.log);
    assert_eq!(direction, LogDirection::Info);
    assert!(message.contains("subscribed to"));
    assert!(message.contains("00002a37"));
}

#[test]
fn test_subscription_unsubscribed() {
    let mut store = make_store(vec![]);
    let outcome = handle_server_event(
        ServerEvent::SubscriptionUpdate { char_id: request_char(), subscribed: false },
        &mut store,
    );
    let (direction, message) = log_of(outcome.log);
    assert_eq!(direction, LogDirection::Info);
    assert!(message.contains("unsubscribed from"));
    assert!(message.contains("00002a37"));
}

#[test]
fn test_read_request_empty_value() {
    let mut store = make_store(vec![]);
    let outcome = handle_server_event(
        ServerEvent::ReadRequest { char_id: request_char(), offset: 0 },
        &mut store,
    );
    match outcome.reply {
        Some(ServerReply::Read { value, status }) => {
            assert!(value.is_empty());
            assert_eq!(status, RequestStatus::Success);
        }
        _ => panic!("expected a read reply"),
    }
    let (direction, message) = log_of(outcome.log);
    assert_eq!(direction, LogDirection::Received);
    assert!(message.contains("(empty)"));
}

#[test]
fn test_read_request_returns_shared_value() {
    let mut store = make_store(vec![0xDE, 0xAD]);
    let outcome = handle_server_event(
        ServerEvent::ReadRequest { char_id: request_char(), offset: 0 },
        &mut store,
    );
    match outcome.reply {
        Some(ServerReply::Read { value, status }) => {
            assert_eq!(value, vec![0xDE, 0xAD]);
            assert_eq!(status, RequestStatus::Success);
        }
        _ => panic!("expected a read reply"),
    }
    let (direction, message) = log_of(outcome.log);
    assert_eq!(direction, LogDirection::Received);
    assert!(message.contains("DE AD"));
}

#[test]
fn test_read_request_includes_offset() {
    let mut store = make_store(vec![0xAB]);
    let outcome = handle_server_event(
        ServerEvent::ReadRequest { char_id: request_char(), offset: 5 },
        &mut store,
    );
    let (_, message) = log_of(outcome.log);
    assert!(message.contains("offset: 5"));
}

#[test]
fn test_write_request() {
    let mut store = make_store(vec![]);
    let outcome = handle_server_event(
        ServerEvent::WriteRequest { char_id: request_char(), offset: 0, value: vec![0xFF, 0x00] },
        &mut store,
    );
    match outcome.reply {
        Some(ServerReply::Write { status }) => assert_eq!(status, RequestStatus::Success),
        _ => panic!("expected a write reply"),
    }
    let (direction, message) = log_of(outcome.log);
    assert_eq!(direction, LogDirection::Received);
    assert!(message.contains("FF 00"));
    assert!(message.contains("00002a37"));
}

#[test]
fn test_write_request_updates_shared_value() {
    let mut store = make_store(vec![]);
    let outcome = handle_server_event(
        ServerEvent::WriteRequest {
            char_id: request_char(),
            offset: 0,
            value: vec![0xDE, 0xAD, 0xBE, 0xEF],
        },
        &mut store,
    );
    match outcome.reply {
        Some(ServerReply::Write { status }) => assert_eq!(status, RequestStatus::Success),
        _ => panic!("expected a write reply"),
    }
    assert_eq!(store.get_value(), vec![0xDE, 0xAD, 0xBE, 0xEF]);
}

#[test]
fn test_write_request_includes_offset() {
    let mut store = make_store(vec![]);
    let outcome = handle_server_event(
        ServerEvent::WriteRequest { char_id: request_char(), offset: 10, value: vec![0x01] },
        &mut store,
    );
    let (_, message) = log_of(outcome.log);
    assert!(message.contains("offset: 10"));
}

#[test]
fn test_shared_value_initially_empty() {
    let store = ValueStore::new();
    assert!(store.get_value().is_empty());
}

#[test]
fn test_shared_value_update_reflected_in_reads() {
    let mut store = make_store(vec![]);
    let first = handle_server_event(
        ServerEvent::ReadRequest { char_id: request_char(), offset: 0 },
        &mut store,
    );
    match first.reply {
        Some(ServerReply::Read { value, .. }) => assert!(value.is_empty()),
        _ => panic!("expected a read reply"),
    }

    store.set_value(vec![0xCA, 0xFE]);

    let second = handle_server_event(
        ServerEvent::ReadRequest { char_id: request_char(), offset: 0 },
        &mut store,
    );
    match second.reply {
        Some(ServerReply::Read { value, .. }) => assert_eq!(value, vec![0xCA, 0xFE]),
        _ => panic!("expected a read reply"),
    }
}

#[test]
fn test_write_request_empty_value() {
    let mut store = make_store(vec![]);
    let outcome = handle_server_event(
        ServerEvent::WriteRequest { char_id: request_char(), offset: 0, value: vec![] },
        &mut store,
    );
    match outcome.reply {
        Some(ServerReply::Write { status }) => assert_eq!(status, RequestStatus::Success),
        _ => panic!("expected a write reply"),
    }
    let (direction, _) = log_of(outcome.log);
    assert_eq!(direction, LogDirection::Received);
}

#[test]
fn test_write_request_rejects_offset_exceeding_max() {
    let mut store = make_store(vec![]);
    let outcome = handle_server_event(
        ServerEvent::WriteRequest { char_id: request_char(), offset: 513, value: vec![0x01] },
        &mut store,
    );
    match outcome.reply {
        Some(ServerReply::Write { status }) => assert_eq!(status, RequestStatus::InvalidOffset),
        _ => panic!("expected a write reply"),
    }
    let (direction, message) = log_of(outcome.log);
    assert_eq!(direction, LogDirection::Received);
    assert!(message.contains("513"));
    assert!(store.get_value().is_empty());
}

#[test]
fn test_write_request_rejects_offset_plus_value_exceeding_max() {
    let mut store = make_store(vec![0u8; 100]);
    let outcome = handle_server_event(
        ServerEvent::WriteRequest { char_id: request_char(), offset: 450, value: vec![0u8; 100] },
        &mut store,
    );
    match outcome.reply {
        Some(ServerReply::Write { status }) => assert_eq!(status, RequestStatus::InvalidOffset),
        _ => panic!("expected a write reply"),
    }
    let (_, message) = log_of(outcome.log);
    assert!(message.contains("450"));
    assert_eq!(store.get_value().len(), 100);
}
