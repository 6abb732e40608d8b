use btlescan::decimal::i64_to_dec;
use btlescan::decimal::u64_to_dec;
use btlescan::decimal::u64_to_dec_pad;
use btlescan::hex::bytes_to_hex;
use btlescan::hex::parse_hex;
use btlescan::uuid_id::parse_uuid;
use btlescan::uuid_id::UuidVal;

#[test]
fn hex_format_pairs() {
    assert_eq!(bytes_to_hex(&vec![]), "");
    assert_eq!(bytes_to_hex(&vec![0x00]), "00");
    assert_eq!(bytes_to_hex(&vec![0xDE, 0xAD, 0xBE, 0xEF]), "DE AD BE EF");
    assert_eq!(bytes_to_hex(&vec![0x0F, 0xA0]), "0F A0");
}

#[test]
fn hex_parse_round_trip() {
    let cases: Vec<Vec<u8>> = vec![
        vec![],
        vec![0x00],
        vec![0xFF],
        vec![0xDE, 0xAD, 0xBE, 0xEF],
        (0u8..=255).collect(),
    ];
    for bytes in cases {
        let text = bytes_to_hex(&bytes);
        assert_eq!(parse_hex(&text), Ok(bytes));
    }
}

#[test]
fn hex_parse_tolerates_spaces_and_case() {
    assert_eq!(parse_hex("dead beef"), Ok(vec![0xDE, 0xAD, 0xBE, 0xEF]));
    assert_eq!(parse_hex("  d e a d  "), Ok(vec![0xDE, 0xAD]));
    assert_eq!(parse_hex(""), Ok(vec![]));
    assert_eq!(parse_hex("   "), Ok(vec![]));
}

#[test]
fn hex_parse_rejects_odd_length() {
    assert_eq!(parse_hex("A"), Err(0));
    assert_eq!(parse_hex("ABC"), Err(2));
    assert_eq!(parse_hex("AB C"), Err(3));
}

#[test]
fn hex_parse_rejects_non_hex() {
    assert_eq!(parse_hex("G0"), Err(0));
    assert_eq!(parse_hex("0G"), Err(1));
    assert_eq!(parse_hex("00 zz"), Err(3));
}

#[test]
fn decimal_rendering() {
    assert_eq!(u64_to_dec(0), "0");
    assert_eq!(u64_to_dec(42), "42");
    assert_eq!(u64_to_dec(1000), "1000");
    assert_eq!(i64_to_dec(-42), "-42");
    assert_eq!(i64_to_dec(7), "7");
    assert_eq!(i64_to_dec(i64::MIN), "-9223372036854775808");
    assert_eq!(u64_to_dec_pad(7, 3), "007");
    assert_eq!(u64_to_dec_pad(1234, 2), "1234");
}

#[test]
fn uuid_text_round_trip() {
    let u = parse_uuid("0000180d-0000-1000-8000-00805f9b34fb").unwrap();
    assert_eq!(u.bits, 0x0000180d_0000_1000_8000_00805f9b34fb);
    assert_eq!(u.to_text(), "0000180d-0000-1000-8000-00805f9b34fb");

    let v = UuidVal::new(0xDEADBEEF_0000_1000 << 64 | 0x8000_00805f9b34fb);
    let text = v.to_text();
    let parsed = parse_uuid(&text).unwrap();
    assert_eq!(parsed.bits, v.bits);
}

#[test]
fn uuid_rejects_malformed_text() {
    assert!(parse_uuid("").is_none());
    assert!(parse_uuid("0000180d-0000-1000-8000-00805f9b34f").is_none());
    assert!(parse_uuid("0000180d0000100080000080 5f9b34fbaa").is_none());
    assert!(parse_uuid("0000180d-0000-1000-8000-00805f9b34fg").is_none());
    assert!(parse_uuid("0000180d_0000-1000-8000-00805f9b34fb").is_none());
}
