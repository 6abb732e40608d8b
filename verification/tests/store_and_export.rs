use btlescan::clock::clock_text;
use btlescan::clock::date_time_text;
use btlescan::clock::file_stamp_text;
use btlescan::clock::TimeParts;
use btlescan::export::export_file_name;
use btlescan::export::export_report;
use btlescan::panels::device_row;
use btlescan::panels::detail_rows;
use btlescan::panels::input_display_text;
use btlescan::panels::props_text;
use btlescan::panels::server_status_text;
use btlescan::panels::sub_status_text;
use btlescan::panels::uuid_short_text;
use btlescan::panels::overlay_window;
use btlescan::scan::scan_step;
use btlescan::scan::ScanDirective;
use btlescan::server::power_wait_exhausted;
use btlescan::session::App;
use btlescan::session::CharProps;
use btlescan::session::DeviceInfo;
use btlescan::session::SessionEvent;
use btlescan::store::RequestStatus;
use btlescan::store::ValueStore;
use btlescan::store::MAX_ATTRIBUTE_SIZE;
use btlescan::utils::extract_manufacturer_data;
use btlescan::uuid_id::UuidVal;

fn noon() -> TimeParts {
    TimeParts { year: 2024, month: 1, day: 2, hour: 12, minute: 0, second: 0, milli: 0 }
}

#[test]
fn read_past_end_answers_empty() {
    let mut store = ValueStore::new();
    store.set_value(vec![1, 2, 3]);
    assert_eq!(store.read_at(0), vec![1, 2, 3]);
    assert_eq!(store.read_at(2), vec![3]);
    assert_eq!(store.read_at(3), vec![]);
    assert_eq!(store.read_at(4), vec![]);
}

#[test]
fn write_at_zero_shrinks_to_payload() {
    let mut store = ValueStore::new();
    store.set_value(vec![1, 2, 3, 4, 5]);
    assert_eq!(store.write_at(0, &vec![9, 9]), RequestStatus::Success);
    assert_eq!(store.get_value(), vec![9, 9]);
}

#[test]
fn write_with_gap_zero_fills() {
    let mut store = ValueStore::new();
    store.set_value(vec![1, 2]);
    assert_eq!(store.write_at(4, &vec![7, 8]), RequestStatus::Success);
    assert_eq!(store.get_value(), vec![1, 2, 0, 0, 7, 8]);

    // A splice inside the existing value keeps the tail.
    assert_eq!(store.write_at(1, &vec![5]), RequestStatus::Success);
    assert_eq!(store.get_value(), vec![1, 5, 0, 0, 7, 8]);
}

#[test]
fn oversized_write_is_rejected_unchanged() {
    let mut store = ValueStore::new();
    assert_eq!(store.write_at(513, &vec![1]), RequestStatus::InvalidOffset);
    assert_eq!(store.get_value().len(), 0);
    assert_eq!(
        store.write_at(0, &vec![0u8; MAX_ATTRIBUTE_SIZE + 1]),
        RequestStatus::InvalidOffset
    );
    assert_eq!(store.get_value().len(), 0);
    // Exactly at the capacity is accepted.
    assert_eq!(store.write_at(0, &vec![0u8; MAX_ATTRIBUTE_SIZE]), RequestStatus::Success);
    assert_eq!(store.get_value().len(), MAX_ATTRIBUTE_SIZE);
}

#[test]
fn local_set_truncates_silently() {
    let mut store = ValueStore::new();
    store.set_value(vec![7u8; MAX_ATTRIBUTE_SIZE + 40]);
    assert_eq!(store.get_value(), vec![7u8; MAX_ATTRIBUTE_SIZE]);
}

#[test]
fn timestamps_render_zero_padded() {
    let t = noon();
    assert_eq!(clock_text(&t), "12:00:00.000");
    assert_eq!(date_time_text(&t), "2024-01-02 12:00:00");
    assert_eq!(file_stamp_text(&t), "2024-01-02_12-00-00");
    let u = TimeParts { year: 987, month: 11, day: 30, hour: 3, minute: 7, second: 59, milli: 42 };
    assert_eq!(clock_text(&u), "03:07:59.042");
    assert_eq!(date_time_text(&u), "0987-11-30 03:07:59");
}

#[test]
fn export_lists_devices_in_ledger_order() {
    let mut app = App::new();
    for (key, name) in [(1u128, "Alpha"), (2u128, "Beta")] {
        let info = DeviceInfo::new(
            format!("id-{key}"),
            Some(name.to_string()),
            Some(4),
            format!("aa:bb:{key:02x}"),
            Some(-50),
            vec![],
            vec![],
            vec![],
            "2024-01-02 12:00:00".to_string(),
        );
        app.apply_event(SessionEvent::DeviceDiscovered { key, info }, &noon());
    }
    let csv = app.get_devices_csv();
    assert_eq!(
        csv,
        "id,name,tx_power,address,rssi\n\
         id-1,Alpha,4,aa:bb:01,-50\n\
         id-2,Beta,4,aa:bb:02,-50\n"
    );
    assert_eq!(export_file_name(&noon()), "btlescan_2024-01-02_12-00-00.csv");
    assert_eq!(
        export_report("btlescan_2024-01-02_12-00-00.csv"),
        "Devices exported to btlescan_2024-01-02_12-00-00.csv"
    );
}

#[test]
fn manufacturer_data_renders_hex_or_placeholder() {
    let data = vec![(0x004Cu16, vec![0x02, 0x15])];
    let md = extract_manufacturer_data(&data, Some("Apple, Inc."));
    assert_eq!(md.company_code, "Apple, Inc.");
    assert_eq!(md.data, "02 15");

    let unknown = extract_manufacturer_data(&data, None);
    assert_eq!(unknown.company_code, "n/a");

    let empty: Vec<(u16, Vec<u8>)> = vec![];
    let md = extract_manufacturer_data(&empty, None);
    assert_eq!(md.company_code, "n/a");
    assert_eq!(md.data, "n/a");
}

#[test]
fn panel_texts_render_exactly() {
    let props = CharProps {
        broadcast: false,
        read: true,
        write_without_response: false,
        write: true,
        notify: true,
        indicate: false,
    };
    assert_eq!(props_text(&props, ","), "READ,WRITE,NOTIFY");
    assert_eq!(props_text(&props, ", "), "READ, WRITE, NOTIFY");

    let u = UuidVal::new(0x00002a37_0000_1000_8000_00805f9b34fb);
    assert_eq!(uuid_short_text(&u), "00002a37");

    assert_eq!(sub_status_text(true), "Subscribed");
    assert_eq!(sub_status_text(false), "Not subscribed");
    assert_eq!(server_status_text(true), "Advertising");
    assert_eq!(server_status_text(false), "Stopped");

    assert_eq!(input_display_text(true, "00 FF", "hint"), "> 00 FF_");
    assert_eq!(input_display_text(false, "", "Press 'i' to enter data"), "Press 'i' to enter data");
    assert_eq!(input_display_text(false, "00", "hint"), "  00");

    assert_eq!(overlay_window(10, 2, 8), (2, 7));
    assert_eq!(overlay_window(10, 12, 8), (0, 0));
}

#[test]
fn device_and_detail_rows() {
    let d = DeviceInfo::new(
        "id-9".to_string(),
        Some("Gadget".to_string()),
        None,
        "aa:bb:cc".to_string(),
        Some(-71),
        vec![(6, vec![0xAB])],
        vec![UuidVal::new(1), UuidVal::new(2)],
        vec![],
        "2024-01-02 12:00:00".to_string(),
    );
    assert_eq!(device_row(&d), vec!["id-9", "Gadget", "n/a", "-71"]);
    let rows = detail_rows(&d, Some("Microsoft"));
    assert_eq!(rows[0], ("Detected At:".to_string(), "2024-01-02 12:00:00".to_string()));
    assert_eq!(rows[1], ("Services:".to_string(), "2".to_string()));
    assert_eq!(rows[2], ("Company Code ID:".to_string(), "Microsoft".to_string()));
    assert_eq!(rows[3], ("Manufacturer Data:".to_string(), "AB".to_string()));
}

#[test]
fn scan_control_decisions() {
    assert_eq!(scan_step(true, true), ScanDirective::Finish);
    assert_eq!(scan_step(true, false), ScanDirective::Finish);
    assert_eq!(scan_step(false, true), ScanDirective::Pause);
    assert_eq!(scan_step(false, false), ScanDirective::Listen);
    assert!(!power_wait_exhausted(50));
    assert!(power_wait_exhausted(51));
}

#[test]
fn local_clock_fields_stay_in_range() {
    let t = btlescan::clock::local_time_parts();
    assert!((1..=12).contains(&t.month));
    assert!((1..=31).contains(&t.day));
    assert!(t.hour <= 23);
    assert!(t.minute <= 59);
    assert!(t.second <= 59);
    assert!(t.milli <= 1999);
    // The rendered clock text has the fixed "HH:MM:SS.mmm" shape.
    let text = btlescan::clock::clock_text(&t);
    assert_eq!(text.len(), 12);
    assert_eq!(&text[2..3], ":");
    assert_eq!(&text[8..9], ".");
}
