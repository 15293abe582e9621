use modbus_bench::crc::append;
use modbus_bench::frames::ModbusError;
use modbus_bench::master::{check_write_echo, coil_word, rtu_entry, rtu_reply};

fn framed(bytes: &[u8]) -> Vec<u8> {
    let mut v = bytes.to_vec();
    append(&mut v);
    v
}

#[test]
fn nothing_received_is_timeout() {
    assert_eq!(rtu_reply(1, 3, &[]), Err(ModbusError::Timeout));
}

#[test]
fn bad_crc_is_reported_before_anything_else() {
    assert_eq!(rtu_reply(1, 3, &[1, 3, 2, 0, 5, 0, 0]), Err(ModbusError::BadCrc));
    assert_eq!(rtu_reply(1, 3, &[9]), Err(ModbusError::BadCrc));
}

#[test]
fn short_frame_with_good_crc_is_timeout() {
    let f = framed(&[1, 3]);
    assert_eq!(f.len(), 4);
    assert_eq!(rtu_reply(1, 3, &f), Err(ModbusError::Timeout));
}

#[test]
fn good_reply_gives_its_pdu() {
    let f = framed(&[1, 3, 2, 0x04, 0xD2]);
    assert_eq!(rtu_reply(1, 3, &f), Ok(vec![2, 0x04, 0xD2]));
    let e = framed(&[1, 0x83, 2]);
    assert_eq!(rtu_reply(1, 3, &e), Err(ModbusError::IllegalAddress));
    let other = framed(&[2, 3, 2, 0, 1]);
    assert_eq!(rtu_reply(1, 3, &other), Err(ModbusError::Io("unexpected slave 0x02".to_string())));
}

#[test]
fn rtu_entry_records_the_transaction() {
    let req = framed(&[1, 3, 0, 0, 0, 1]);
    let resp = framed(&[1, 3, 2, 0, 7]);
    let outcome = rtu_reply(1, 3, &resp);
    let e = rtu_entry(3, &req, &resp, &outcome, 12);
    assert_eq!(e.transport, "RTU");
    assert_eq!(e.fc, "READ HOLDING REGISTERS (0x03)");
    assert!(e.ok);
    assert_eq!(e.err, None);
    assert_eq!(e.ms, 12);
    assert!(e.resp.starts_with("01 03 02 00 07"));

    let timeout = rtu_reply(1, 3, &[]);
    let t = rtu_entry(3, &req, &[], &timeout, 200);
    assert!(!t.ok);
    assert_eq!(t.resp, "");
    assert_eq!(t.err, Some("timeout (no response)".to_string()));
}

#[test]
fn write_echo_needs_four_bytes() {
    assert_eq!(check_write_echo(&[0, 1, 0, 2], false), Ok(()));
    assert_eq!(check_write_echo(&[0, 1], false), Err(ModbusError::Io("short write echo".to_string())));
    assert_eq!(check_write_echo(&[], true), Err(ModbusError::Io("short coil echo".to_string())));
    assert_eq!(coil_word(true), 0xFF00);
    assert_eq!(coil_word(false), 0);
}
