use radion::Error;
use radion::HwInfo;
use radion::parse_hw_info;
use radion::parse_string_descriptors;
use radion::serialize_hw_info;
use radion::serialize_string_descriptors;
use radion::utf16_decode_units;
use radion::utf16_encode_str;
use radion::EEPROM_SIZE;
use radion::MAX_STR_SIZE;
use radion::STR_OFFSET_START;

fn sample_info() -> HwInfo {
    HwInfo {
        vendor_id: 0x0BDA,
        product_id: 0x2838,
        manufact: String::from("RTLSDR"),
        product: String::from("Radio"),
        serial: String::from("00000001"),
        have_serial: true,
        enable_ir: true,
        remote_wakeup: false,
    }
}

#[test]
fn utf16_encode_exact() {
    let units = utf16_encode_str("A\u{20AC}\u{1F600}");
    assert_eq!(units, vec![0x0041, 0x20AC, 0xD83D, 0xDE00]);
}

#[test]
fn utf16_encode_empty() {
    assert_eq!(utf16_encode_str(""), Vec::<u16>::new());
}

#[test]
fn utf16_decode_round_trip() {
    let text = "A\u{20AC}\u{1F600}x";
    let units = utf16_encode_str(text);
    let back = utf16_decode_units(&units).expect("valid UTF-16 must decode");
    assert_eq!(back, text);
}

#[test]
fn utf16_decode_rejects_lone_high_surrogate() {
    assert!(utf16_decode_units(&[0xD800]).is_none());
    assert!(utf16_decode_units(&[0x0041, 0xD800, 0x0042]).is_none());
}

#[test]
fn utf16_decode_rejects_lone_low_surrogate() {
    assert!(utf16_decode_units(&[0xDC00, 0xD800]).is_none());
}

#[test]
fn serialized_layout_exact() {
    let info = sample_info();
    let data = serialize_hw_info(&info).expect("fits");
    assert_eq!(data.len(), EEPROM_SIZE);
    assert_eq!(data[0], 0x28);
    assert_eq!(data[1], 0x32);
    assert_eq!(data[2], 0xDA);
    assert_eq!(data[3], 0x0B);
    assert_eq!(data[4], 0x38);
    assert_eq!(data[5], 0x28);
    assert_eq!(data[6], 0xA5);
    assert_eq!(data[7], 0x02);
    // first descriptor: "RTLSDR" as UTF-16LE, length byte 6*2+2
    assert_eq!(data[9], 14);
    assert_eq!(data[10], 0x03);
    assert_eq!(&data[11..23], b"R\0T\0L\0S\0D\0R\0");
    // second descriptor follows immediately
    assert_eq!(data[9 + 14], 12);
    assert_eq!(data[9 + 15], 0x03);
    assert_eq!(&data[25..35], b"R\0a\0d\0i\0o\0");
}

#[test]
fn round_trip_known_record() {
    let info = HwInfo {
        vendor_id: 0x0BDA,
        product_id: 0x2838,
        manufact: String::from("RTLSDR"),
        product: String::from("Radio"),
        serial: String::from("001"),
        have_serial: true,
        enable_ir: false,
        remote_wakeup: true,
    };
    let data = serialize_hw_info(&info).expect("fits");
    let back = parse_hw_info(&data).expect("own image must parse");
    assert_eq!(back.vendor_id, 0x0BDA);
    assert_eq!(back.product_id, 0x2838);
    assert_eq!(back.manufact, "RTLSDR");
    assert_eq!(back.product, "Radio");
    assert_eq!(back.serial, "001");
    assert!(back.have_serial);
    assert!(!back.enable_ir);
    assert!(back.remote_wakeup);
    assert_eq!(back, info);
}

#[test]
fn round_trip_non_bmp_and_empty_strings() {
    let info = HwInfo {
        vendor_id: 0,
        product_id: 0xFFFF,
        manufact: String::from("\u{1F4E1} dish"),
        product: String::new(),
        serial: String::from("\u{00E9}\u{20AC}"),
        have_serial: false,
        enable_ir: true,
        remote_wakeup: false,
    };
    let data = serialize_hw_info(&info).expect("fits");
    let back = parse_hw_info(&data).expect("own image must parse");
    assert_eq!(back, info);
}

#[test]
fn serialize_accepts_max_len_string() {
    let mut info = sample_info();
    info.serial = "s".repeat(MAX_STR_SIZE);
    assert!(serialize_hw_info(&info).is_ok());
}

#[test]
fn serialize_rejects_too_long_string() {
    let mut info = sample_info();
    info.product = "p".repeat(MAX_STR_SIZE + 1);
    let r = serialize_hw_info(&info);
    assert!(matches!(r, Err(Error::StringValueTooLong)));
}

#[test]
fn serialize_counts_utf16_units_not_chars() {
    // 18 supplementary-plane characters need 36 code units: one too many.
    let mut info = sample_info();
    info.manufact = "\u{1F600}".repeat(18);
    let r = serialize_hw_info(&info);
    assert!(matches!(r, Err(Error::StringValueTooLong)));
    info.manufact = "\u{1F600}".repeat(17);
    assert!(serialize_hw_info(&info).is_ok());
}

#[test]
fn serialize_too_long_leaves_failing_field_unwritten() {
    let info = HwInfo {
        manufact: String::from("ok"),
        product: "p".repeat(MAX_STR_SIZE + 1),
        ..sample_info()
    };
    let mut data = vec![0u8; EEPROM_SIZE];
    let r = serialize_string_descriptors(&mut data, &info);
    assert!(matches!(r, Err(Error::StringValueTooLong)));
    // the first descriptor was written whole ...
    assert_eq!(data[STR_OFFSET_START], 6);
    assert_eq!(data[STR_OFFSET_START + 1], 0x03);
    assert_eq!(&data[STR_OFFSET_START + 2..STR_OFFSET_START + 6], b"o\0k\0");
    // ... and everything from the failing field's position on is untouched
    assert!(data[STR_OFFSET_START + 6..].iter().all(|&b| b == 0));
}

#[test]
fn serialize_descriptor_too_long_for_small_buffer() {
    let info = sample_info();
    let mut data = vec![0u8; 12];
    let r = serialize_string_descriptors(&mut data, &info);
    assert!(matches!(r, Err(Error::StringDescriptorTooLong)));
    assert!(data.iter().all(|&b| b == 0));
}

#[test]
fn parse_rejects_bad_header() {
    let info = sample_info();
    let mut data = serialize_hw_info(&info).expect("fits");
    data[0] = 0x29;
    let r = parse_hw_info(&data);
    assert!(matches!(r, Err(Error::NoValidEEPROMHeader)));
    data[0] = 0x28;
    data[1] = 0x00;
    let r = parse_hw_info(&data);
    assert!(matches!(r, Err(Error::NoValidEEPROMHeader)));
}

#[test]
fn parse_rejects_short_buffer() {
    let r = parse_hw_info(&[0x28, 0x32, 0, 0, 0, 0, 0, 0]);
    assert!(matches!(r, Err(Error::NoValidEEPROMHeader)));
}

#[test]
fn parse_rejects_bad_descriptor_type_byte() {
    let info = sample_info();
    let mut data = serialize_hw_info(&info).expect("fits");
    data[STR_OFFSET_START + 1] = 0x04;
    let r = parse_hw_info(&data);
    assert!(matches!(r, Err(Error::StringDescriptorInvalid)));
}

#[test]
fn parse_rejects_short_declared_length() {
    let info = sample_info();
    let mut data = serialize_hw_info(&info).expect("fits");
    data[STR_OFFSET_START] = 1;
    let r = parse_hw_info(&data);
    assert!(matches!(r, Err(Error::StringDescriptorInvalid)));
}

#[test]
fn parse_rejects_length_past_buffer() {
    let info = sample_info();
    let mut data = serialize_hw_info(&info).expect("fits");
    data[STR_OFFSET_START] = 0xFF;
    let r = parse_hw_info(&data);
    assert!(matches!(r, Err(Error::StringDescriptorInvalid)));
}

#[test]
fn parse_rejects_unpaired_surrogate_payload() {
    let mut data = vec![0u8; EEPROM_SIZE];
    data[0] = 0x28;
    data[1] = 0x32;
    // one descriptor whose payload is a lone high surrogate
    data[9] = 4;
    data[10] = 0x03;
    data[11] = 0x00;
    data[12] = 0xD8;
    // two empty descriptors after it
    data[13] = 2;
    data[14] = 0x03;
    data[15] = 2;
    data[16] = 0x03;
    let r = parse_hw_info(&data);
    assert!(matches!(r, Err(Error::StringDescriptorInvalid)));
}

#[test]
fn parse_string_descriptors_reads_handwritten_table() {
    let mut data = vec![0u8; 64];
    data[0] = 0x28;
    data[1] = 0x32;
    data[9] = 6;
    data[10] = 0x03;
    data[11] = b'h';
    data[13] = b'i';
    data[15] = 4;
    data[16] = 0x03;
    data[17] = b'!';
    data[19] = 2;
    data[20] = 0x03;
    let (m, p, s) = parse_string_descriptors(&data).expect("table is well-formed");
    assert_eq!(m, "hi");
    assert_eq!(p, "!");
    assert_eq!(s, "");
}

#[test]
fn parse_flags_and_sentinel() {
    let mut info = sample_info();
    info.have_serial = false;
    info.enable_ir = false;
    info.remote_wakeup = true;
    let data = serialize_hw_info(&info).expect("fits");
    assert_eq!(data[6], 0x00);
    assert_eq!(data[7], 0x01);
    let back = parse_hw_info(&data).expect("own image must parse");
    assert!(!back.have_serial);
    assert!(!back.enable_ir);
    assert!(back.remote_wakeup);
}
