use btlescan::clock::TimeParts;
use btlescan::input::DataFormat;
use btlescan::log::LogDirection;
use btlescan::session::parse_value;
use btlescan::session::resolve_write_attempts;
use btlescan::session::App;
use btlescan::session::CharProps;
use btlescan::session::Characteristic;
use btlescan::session::ConnectionState;
use btlescan::session::DeviceInfo;
use btlescan::session::FocusPanel;
use btlescan::session::ServerField;
use btlescan::session::SessionError;
use btlescan::session::SessionEvent;
use btlescan::session::MAX_DEVICES;
use btlescan::uuid_id::UuidVal;

fn noon() -> TimeParts {
    TimeParts { year: 2024, month: 1, day: 2, hour: 12, minute: 0, second: 0, milli: 0 }
}

fn device(n: u32) -> DeviceInfo {
    DeviceInfo::new(
        format!("dev-{n}"),
        Some(format!("Device {n}")),
        Some(4),
        format!("00:11:22:33:44:{n:02X}"),
        Some(-60),
        vec![],
        vec![],
        vec![],
        "2024-01-02 12:00:00".to_string(),
    )
}

fn discover(app: &mut App, key: u128) {
    let info = device(key as u32);
    app.apply_event(SessionEvent::DeviceDiscovered { key, info }, &noon());
}

#[test]
fn device_info_renders_absent_fields() {
    let d = DeviceInfo::new(
        "id".to_string(),
        None,
        None,
        "addr".to_string(),
        None,
        vec![],
        vec![],
        vec![],
        "t".to_string(),
    );
    assert_eq!(d.name, "Unknown");
    assert_eq!(d.tx_power, "n/a");
    assert_eq!(d.rssi, "n/a");
    assert_eq!(d.get_id(), "id");
}

#[test]
fn discovery_is_bounded_and_protects_connected_device() {
    let mut app = App::new();
    for k in 1..=10u128 {
        discover(&mut app, k);
    }
    assert_eq!(app.devices.len(), 10);

    // Tie the session to device 3, then flood the registry.
    app.connection = ConnectionState::Connected(3);
    for k in 100..(100 + 2 * MAX_DEVICES as u128) {
        discover(&mut app, k);
    }
    assert_eq!(app.devices.len(), MAX_DEVICES);
    assert!(app.devices.contains(3));
    assert!(!app.devices.contains(1));
}

#[test]
fn repeated_discovery_updates_in_place() {
    let mut app = App::new();
    discover(&mut app, 7);
    discover(&mut app, 8);
    discover(&mut app, 7);
    assert_eq!(app.devices.len(), 2);
    assert!(app.devices.contains(7));
}

#[test]
fn connect_with_no_device_selected_stays_disconnected() {
    let mut app = App::new();
    let started = app.connect(&noon());
    assert!(started.is_none());
    assert_eq!(app.connection, ConnectionState::Disconnected);
    assert_eq!(app.error_message, "No device selected");
    assert!(app.error_view);
    assert!(!app.is_loading);
}

#[test]
fn connect_and_discovery_lifecycle() {
    let mut app = App::new();
    discover(&mut app, 1);
    discover(&mut app, 2);
    app.select_next_device();
    let started = app.connect(&noon());
    assert_eq!(started, Some(2));
    assert_eq!(app.connection, ConnectionState::Connecting(2));
    assert!(app.scan_paused);
    assert!(app.is_loading);

    // A stale discovery result from another attempt is dropped.
    let stale = vec![characteristic(0x2a37)];
    app.apply_event(SessionEvent::AttributesDiscovered { key: 9, chars: stale }, &noon());
    assert_eq!(app.connection, ConnectionState::Connecting(2));
    assert!(app.characteristics.is_empty());

    let chars = vec![characteristic(0x2a37), characteristic(0x2a29)];
    app.apply_event(SessionEvent::AttributesDiscovered { key: 2, chars }, &noon());
    assert_eq!(app.connection, ConnectionState::Connected(2));
    assert_eq!(app.characteristics.len(), 2);
    assert!(!app.is_loading);
}

fn characteristic(short: u128) -> Characteristic {
    Characteristic {
        uuid: UuidVal::new(short << 96 | 0x0000_1000_8000_00805f9b34fb),
        properties: CharProps {
            broadcast: false,
            read: true,
            write_without_response: false,
            write: true,
            notify: true,
            indicate: false,
        },
        descriptors: vec![],
        service: UuidVal::new(0x0000180d_0000_1000_8000_00805f9b34fb),
    }
}

#[test]
fn operation_error_clears_connection_scoped_state() {
    let mut app = App::new();
    discover(&mut app, 1);
    app.select_next_device();
    app.connect(&noon());
    app.apply_event(
        SessionEvent::AttributesDiscovered { key: 1, chars: vec![characteristic(0x2a37)] },
        &noon(),
    );
    app.apply_event(
        SessionEvent::ValueRead { id: UuidVal::new(42), value: vec![1, 2] },
        &noon(),
    );
    app.apply_event(SessionEvent::SubscribeComplete { id: UuidVal::new(42) }, &noon());
    assert_eq!(app.char_values.len(), 1);
    assert_eq!(app.subscriptions.len(), 1);

    app.apply_event(
        SessionEvent::OperationError { message: "Connection timed out".to_string() },
        &noon(),
    );
    assert_eq!(app.connection, ConnectionState::Disconnected);
    assert!(app.characteristics.is_empty());
    assert_eq!(app.char_values.len(), 0);
    assert_eq!(app.subscriptions.len(), 0);
    assert!(app.error_view);
    assert_eq!(app.error_message, "Connection timed out");
    // The scan pause flag is a caller-level policy and is untouched.
    assert!(app.scan_paused);
}

#[test]
fn value_cache_evicts_least_recently_inserted() {
    let mut app = App::new();
    // MAX_CHAR_VALUES is 100: u1..u101 leaves u1 evicted, u101 present.
    for k in 1..=101u128 {
        app.apply_event(
            SessionEvent::ValueRead { id: UuidVal::new(k), value: vec![k as u8] },
            &noon(),
        );
    }
    assert_eq!(app.char_values.len(), 100);
    assert!(app.char_values.get(1).is_none());
    assert_eq!(app.char_values.get(101), Some(&vec![101u8 as u8]));
}

#[test]
fn value_cache_refresh_moves_to_newest() {
    let mut app = App::new();
    for k in 1..=100u128 {
        app.apply_event(
            SessionEvent::ValueRead { id: UuidVal::new(k), value: vec![k as u8] },
            &noon(),
        );
    }
    // Refreshing key 1 keeps the cache full and makes key 2 the oldest.
    app.apply_event(
        SessionEvent::Notification { id: UuidVal::new(1), value: vec![0xAA] },
        &noon(),
    );
    assert_eq!(app.char_values.len(), 100);
    assert_eq!(app.char_values.get(1), Some(&vec![0xAA]));

    app.apply_event(
        SessionEvent::ValueRead { id: UuidVal::new(200), value: vec![0xBB] },
        &noon(),
    );
    assert_eq!(app.char_values.len(), 100);
    assert!(app.char_values.get(2).is_none());
    assert_eq!(app.char_values.get(1), Some(&vec![0xAA]));
}

#[test]
fn disconnect_resumes_scanning() {
    let mut app = App::new();
    discover(&mut app, 1);
    app.select_next_device();
    app.connect(&noon());
    app.apply_event(
        SessionEvent::AttributesDiscovered { key: 1, chars: vec![characteristic(0x2a37)] },
        &noon(),
    );
    let stopped = app.disconnect(&noon());
    assert_eq!(stopped, Some(1));
    assert_eq!(app.connection, ConnectionState::Disconnected);
    assert!(!app.scan_paused);
    assert!(app.characteristics.is_empty());
}

#[test]
fn write_fallback_reports_success() {
    // With-acknowledgement fails, without-acknowledgement succeeds.
    let r = resolve_write_attempts(Err("ack refused".to_string()), Ok(()));
    assert!(r.is_ok());
    assert!(resolve_write_attempts(Ok(()), Ok(())).is_ok());

    let both = resolve_write_attempts(Err("a".to_string()), Err("b".to_string()));
    match both {
        Err(e) => assert_eq!(e.message(), "Write failed: a / b"),
        Ok(()) => panic!("double failure must surface an error"),
    }
}

#[test]
fn focus_cycles_through_all_panels() {
    let mut app = App::new();
    assert_eq!(app.focus, FocusPanel::Devices);
    app.cycle_focus();
    assert_eq!(app.focus, FocusPanel::Attributes);
    app.cycle_focus();
    assert_eq!(app.focus, FocusPanel::ReadWrite);
    app.cycle_focus();
    assert_eq!(app.focus, FocusPanel::Log);
    app.cycle_focus();
    assert_eq!(app.focus, FocusPanel::Devices);
}

#[test]
fn device_selection_wraps_both_ways() {
    let mut app = App::new();
    app.select_next_device();
    assert_eq!(app.selected, None);
    for k in 1..=3u128 {
        discover(&mut app, k);
    }
    assert_eq!(app.selected, Some(0));
    app.select_next_device();
    app.select_next_device();
    assert_eq!(app.selected, Some(2));
    app.select_next_device();
    assert_eq!(app.selected, Some(0));
    app.select_previous_device();
    assert_eq!(app.selected, Some(2));
}

#[test]
fn parse_value_by_format() {
    assert_eq!(parse_value(DataFormat::Hex, "DE AD"), Ok(vec![0xDE, 0xAD]));
    assert_eq!(parse_value(DataFormat::Text, "hi"), Ok(vec![b'h', b'i']));
    match parse_value(DataFormat::Hex, "xy") {
        Err(SessionError::InvalidHexInput(p)) => assert_eq!(p, 0),
        _ => panic!("expected a position-qualified hex error"),
    }
    match parse_value(DataFormat::Hex, "AB C") {
        Err(SessionError::InvalidHexInput(p)) => assert_eq!(p, 3),
        _ => panic!("expected a position-qualified hex error"),
    }
}

#[test]
fn server_config_rejects_invalid_uuid() {
    let mut app = App::new();
    let r = app.set_server_field(ServerField::ServiceUuid, "not-a-uuid".to_string());
    match r {
        Err(SessionError::InvalidUuid(v)) => assert_eq!(v, "not-a-uuid"),
        _ => panic!("expected an invalid uuid error"),
    }
    assert_eq!(app.server.service_uuid.bits, 0x0000180d_0000_1000_8000_00805f9b34fb);

    let ok = app.set_server_field(
        ServerField::CharUuid,
        "b42e2a68-ade7-11e4-89d3-123b93f75cba".to_string(),
    );
    assert!(ok.is_ok());
    assert_eq!(app.server.char_uuid.to_text(), "b42e2a68-ade7-11e4-89d3-123b93f75cba");

    assert!(app.set_server_field(ServerField::Name, "my-device".to_string()).is_ok());
    assert_eq!(app.server.name, "my-device");
}

#[test]
fn error_messages_render_exactly() {
    assert_eq!(SessionError::ConnectionTimeout.message(), "Connection timed out");
    assert_eq!(
        SessionError::ConnectionFailed("no route".to_string()).message(),
        "Connection error: no route"
    );
    assert_eq!(SessionError::InvalidHexInput(7).message(), "Invalid hex input at position 7");
    assert_eq!(SessionError::InputTooLong.message(), "Input too long");
    assert_eq!(SessionError::AdapterNotPowered.message(), "Bluetooth adapter not powered on");
}

#[test]
fn event_log_lines_are_timestamped() {
    let mut app = App::new();
    app.apply_event(
        SessionEvent::Info { message: "Scan started".to_string() },
        &noon(),
    );
    assert_eq!(app.log.len(), 1);
    let e = app.log.entry_at(0);
    assert_eq!(e.timestamp, "12:00:00.000");
    assert_eq!(e.direction, LogDirection::Info);
    assert_eq!(e.message, "Scan started");
}
