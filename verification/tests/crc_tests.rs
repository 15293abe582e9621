use modbus_bench::crc::{append, append_crc, crc16, frame_crc, hex, is_for_us, to_hex, verify, verify_crc};

#[test]
fn test_crc16_known_value() {
    let data = b"123456789";
    assert_eq!(crc16(data), 0x4B37);
}

#[test]
fn test_crc16_modbus_request() {
    let data = [0x01, 0x03, 0x00, 0x00, 0x00, 0x0A];
    let crc = crc16(&data);
    assert_ne!(crc, 0);
}

#[test]
fn test_verify_crc() {
    let mut frame = vec![0x01, 0x03, 0x00, 0x00, 0x00, 0x0A];
    let crc = crc16(&frame);
    frame.push(crc as u8);
    frame.push((crc >> 8) as u8);

    assert!(verify_crc(&frame));
}

#[test]
fn test_verify_crc_bad() {
    let frame = vec![0x01, 0x03, 0x00, 0x00, 0x00, 0x0A, 0xFF, 0xFF];
    assert!(!verify_crc(&frame));
}

#[test]
fn crc_known_values() {
    let frame = [0x01, 0x03, 0x00, 0x00, 0x00, 0x01];
    assert_eq!(crc16(&frame), 0x0A84);
}

#[test]
fn append_and_verify_roundtrip() {
    let mut frame = vec![0x01, 0x03, 0x00, 0x00, 0x00, 0x01];
    let base_len = frame.len();
    append(&mut frame);
    assert_eq!(frame.len(), base_len + 2);
    assert!(verify(&frame));
    frame[0] = 0xFF;
    assert!(!verify(&frame));
}

#[test]
fn is_for_us_works() {
    assert!(is_for_us(&[0x01, 0x03, 0, 0, 0, 1, 0, 0], 0x01));
    assert!(is_for_us(&[0x00, 0x10, 0, 0, 0, 1, 2, 0, 0, 0, 0], 0x01));
    assert!(!is_for_us(&[0x02, 0x03, 0, 0, 0, 1, 0, 0], 0x01));
}

#[test]
fn crc_of_empty_buffer_is_initial_value() {
    assert_eq!(crc16(&[]), 0xFFFF);
}

#[test]
fn append_crc_appends_low_byte_first() {
    let mut frame = vec![0x01, 0x03, 0x00, 0x00, 0x00, 0x01];
    append_crc(&mut frame);
    assert_eq!(frame, vec![0x01, 0x03, 0x00, 0x00, 0x00, 0x01, 0x84, 0x0A]);
}

#[test]
fn verify_needs_minimum_length() {
    // Three bytes are enough for verify_crc, not for verify.
    let mut three = vec![0x07];
    append_crc(&mut three);
    assert!(verify_crc(&three));
    assert!(!verify(&three));
    assert!(!verify_crc(&[0x01, 0x02]));
    assert!(!is_for_us(&[], 0x01));
}

#[test]
fn frame_crc_matches_crc16() {
    let (lo, hi) = frame_crc(0x01, 0x03, 0x00, 0x00, 0x00, 0x01);
    assert_eq!((lo, hi), (0x84, 0x0A));
}

#[test]
fn hex_formats_bytes_with_spaces() {
    assert_eq!(to_hex(&[0x01, 0xAB, 0x0F]), "01 AB 0F");
    assert_eq!(hex(&[]), "");
    assert_eq!(hex(&[0x00]), "00");
}

#[test]
fn a_frame_followed_by_its_crc_has_crc_zero() {
    let samples: [&[u8]; 4] = [b"", b"123456789", &[0x01, 0x03, 0x00, 0x00, 0x00, 0x02], &[0xFF; 40]];
    for data in samples {
        let framed = [data, &crc16(data).to_le_bytes()[..]].concat();
        assert_eq!(crc16(&framed), 0);
    }
}
