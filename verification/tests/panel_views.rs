use btlescan::hex::bytes_to_hex;
use btlescan::panels::input_display_text;
use btlescan::panels::props_text;
use btlescan::panels::server_status_text;
use btlescan::panels::sub_status_text;
use btlescan::panels::uuid_short_text;
use btlescan::session::App;
use btlescan::session::CharProps;
use btlescan::session::Characteristic;
use btlescan::session::ServerField;
use btlescan::uuid_id::parse_uuid;

fn make_char(uuid_text: &str, props: CharProps) -> Characteristic {
    Characteristic {
        uuid: parse_uuid(uuid_text).unwrap(),
        properties: props,
        descriptors: vec![],
        service: parse_uuid("00001800-0000-1000-8000-00805f9b34fb").unwrap(),
    }
}

fn read_only() -> CharProps {
    CharProps {
        broadcast: false,
        read: true,
        write_without_response: false,
        write: false,
        notify: false,
        indicate: false,
    }
}

fn notify_only() -> CharProps {
    CharProps {
        broadcast: false,
        read: false,
        write_without_response: false,
        write: false,
        notify: true,
        indicate: false,
    }
}

fn read_write_notify() -> CharProps {
    CharProps {
        broadcast: false,
        read: true,
        write_without_response: false,
        write: true,
        notify: true,
        indicate: false,
    }
}

#[test]
fn test_characteristic_panel_empty() {
    let chars: Vec<Characteristic> = vec![];
    assert!(chars.is_empty());
}

#[test]
fn test_characteristic_panel_with_data() {
    let chars = vec![
        make_char("00002a29-0000-1000-8000-00805f9b34fb", read_only()),
        make_char("00002a37-0000-1000-8000-00805f9b34fb", notify_only()),
    ];
    assert_eq!(uuid_short_text(&chars[0].uuid), "00002a29");
    assert_eq!(uuid_short_text(&chars[1].uuid), "00002a37");
    assert_eq!(props_text(&chars[0].properties, ","), "READ");
    assert_eq!(props_text(&chars[1].properties, ","), "NOTIFY");
    assert_eq!(bytes_to_hex(&vec![0x41, 0x70]), "41 70");
}

#[test]
fn test_rw_panel_no_selection() {
    assert_eq!(sub_status_text(false), "Not subscribed");
    assert_eq!(input_display_text(false, "", "Press 'i' to enter data"), "Press 'i' to enter data");
}

#[test]
fn test_rw_panel_with_selection() {
    let ch = make_char("00002a37-0000-1000-8000-00805f9b34fb", read_write_notify());
    assert_eq!(props_text(&ch.properties, ", "), "READ, WRITE, NOTIFY");
    assert_eq!(bytes_to_hex(&vec![0x00, 0x50]), "00 50");
}

#[test]
fn test_rw_panel_editing() {
    let ch = make_char("00002a37-0000-1000-8000-00805f9b34fb", read_write_notify());
    assert_eq!(ch.uuid.to_text(), "00002a37-0000-1000-8000-00805f9b34fb");
    assert_eq!(sub_status_text(true), "Subscribed");
    assert_eq!(input_display_text(true, "00 FF", "hint"), "> 00 FF_");
}

#[test]
fn test_server_panel_stopped() {
    let app = App::new();
    assert_eq!(server_status_text(app.server.advertising), "Stopped");
    assert_eq!(app.server.name, "btlescan");
    assert_eq!(app.server.service_uuid.to_text(), "0000180d-0000-1000-8000-00805f9b34fb");
    assert_eq!(app.server.char_uuid.to_text(), "00002a37-0000-1000-8000-00805f9b34fb");
}

#[test]
fn test_server_panel_advertising() {
    let mut app = App::new();
    app.set_server_field(ServerField::Name, "my-device".to_string()).unwrap();
    app.set_advertising(true);
    assert_eq!(server_status_text(app.server.advertising), "Advertising");
    assert_eq!(app.server.name, "my-device");
    assert_eq!(bytes_to_hex(&vec![0x00, 0x50]), "00 50");
}

#[test]
fn test_server_panel_advertising_empty_value() {
    let mut app = App::new();
    app.set_server_field(ServerField::Name, "my-device".to_string()).unwrap();
    app.set_advertising(true);
    let value: Vec<u8> = vec![];
    assert_eq!(bytes_to_hex(&value), "");
}

#[test]
fn test_server_panel_advertising_editing() {
    let mut app = App::new();
    app.set_server_field(ServerField::Name, "my-device".to_string()).unwrap();
    app.set_advertising(true);
    assert_eq!(input_display_text(true, "FF 00", "hint"), "> FF 00_");
}

#[test]
fn test_server_panel_editing_config() {
    // A partial uuid is rejected when committed as a configuration field.
    let mut app = App::new();
    let r = app.set_server_field(ServerField::ServiceUuid, "b42e2a68-ade7-11e4".to_string());
    assert!(r.is_err());
    assert_eq!(app.server.service_uuid.to_text(), "0000180d-0000-1000-8000-00805f9b34fb");
    assert_eq!(ServerField::ServiceUuid.label(), "Service UUID");
}
