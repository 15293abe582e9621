use modbus_bench::crc::{append_crc, verify_crc};
use modbus_bench::register_map::RegisterMap;
use modbus_bench::rtu_slave::{build_exception_response, check_request_in_bounds, handle_frame, RtuSlave};

fn request(bytes: &[u8]) -> Vec<u8> {
    let mut f = bytes.to_vec();
    append_crc(&mut f);
    f
}

fn bench_map() -> RegisterMap {
    let mut m = RegisterMap::new();
    m.set_input_register(0, 0x41C8);
    m.set_input_register(1, 0x0000);
    m.set_holding_register(0, 42);
    m.set_holding_register(1, 7);
    m.set_coil(0, true);
    m.set_coil(1, false);
    m.set_coil(2, true);
    m
}

#[test]
fn read_holding_reply() {
    let mut m = bench_map();
    let reply = handle_frame(&request(&[0x01, 0x03, 0x00, 0x00, 0x00, 0x02]), 1, &mut m).unwrap().unwrap();
    assert_eq!(&reply[..7], &[0x01, 0x03, 0x04, 0x00, 0x2A, 0x00, 0x07]);
    assert!(verify_crc(&reply));
}

#[test]
fn read_coils_and_discrete_reply() {
    let mut m = bench_map();
    let reply = handle_frame(&request(&[0x01, 0x01, 0x00, 0x00, 0x00, 0x03]), 1, &mut m).unwrap().unwrap();
    assert_eq!(&reply[..4], &[0x01, 0x01, 0x01, 0b101]);
    let reply = handle_frame(&request(&[0x01, 0x02, 0x00, 0x00, 0x00, 0x03]), 1, &mut m).unwrap().unwrap();
    assert_eq!(&reply[..4], &[0x01, 0x02, 0x01, 0b101]);
}

#[test]
fn missing_register_is_illegal_address() {
    let mut m = bench_map();
    let reply = handle_frame(&request(&[0x01, 0x04, 0x00, 0x05, 0x00, 0x01]), 1, &mut m).unwrap().unwrap();
    assert_eq!(reply, build_exception_response(1, 0x04, 0x02));
    assert_eq!(&reply[..3], &[0x01, 0x84, 0x02]);
}

#[test]
fn write_then_read_over_the_wire() {
    let mut m = bench_map();
    let ack = handle_frame(&request(&[0x01, 0x06, 0x00, 0x01, 0x12, 0x34]), 1, &mut m).unwrap().unwrap();
    assert_eq!(ack, request(&[0x01, 0x06, 0x00, 0x01, 0x12, 0x34]));
    let reply = handle_frame(&request(&[0x01, 0x03, 0x00, 0x01, 0x00, 0x01]), 1, &mut m).unwrap().unwrap();
    assert_eq!(&reply[..5], &[0x01, 0x03, 0x02, 0x12, 0x34]);
}

#[test]
fn multiple_writes() {
    let mut m = bench_map();
    let ack = handle_frame(&request(&[0x01, 0x10, 0x00, 0x00, 0x00, 0x02, 0x04, 0x00, 0x0A, 0x00, 0x14]), 1, &mut m)
        .unwrap()
        .unwrap();
    assert_eq!(&ack[..6], &[0x01, 0x10, 0x00, 0x00, 0x00, 0x02]);
    assert_eq!(m.read_holding_registers(0, 2), Ok(vec![10, 20]));
    let ack = handle_frame(&request(&[0x01, 0x0F, 0x00, 0x00, 0x00, 0x03, 0x01, 0b010]), 1, &mut m)
        .unwrap()
        .unwrap();
    assert_eq!(&ack[..6], &[0x01, 0x0F, 0x00, 0x00, 0x00, 0x03]);
    assert_eq!(m.read_coils(0, 3), Ok(vec![false, true, false]));
}

#[test]
fn frames_for_others_or_damaged_are_ignored() {
    let mut m = bench_map();
    assert_eq!(handle_frame(&[0x01, 0x03, 0x00], 1, &mut m), Err(()));
    assert_eq!(handle_frame(&request(&[0x02, 0x03, 0x00, 0x00, 0x00, 0x01]), 1, &mut m), Ok(None));
    let mut bad = request(&[0x01, 0x03, 0x00, 0x00, 0x00, 0x01]);
    bad[2] ^= 0xFF;
    assert_eq!(handle_frame(&bad, 1, &mut m), Ok(None));
    // Broadcast is served.
    assert!(handle_frame(&request(&[0x00, 0x03, 0x00, 0x00, 0x00, 0x01]), 1, &mut m).unwrap().is_some());
}

#[test]
fn unknown_function_is_refused() {
    let mut m = bench_map();
    let reply = handle_frame(&request(&[0x01, 0x2B, 0x00, 0x00]), 1, &mut m).unwrap().unwrap();
    assert_eq!(&reply[..3], &[0x01, 0xAB, 0x01]);
}

#[test]
fn bench_slave_serves_discrete_reads_as_coils() {
    let mut s = RtuSlave::new("/dev/null".to_string(), 9600, 1, bench_map());
    assert_eq!(s.inter_frame_gap_ms(), 385000 / 9600 + 1);
    let reply = s.handle_request(&request(&[0x01, 0x02, 0x00, 0x00, 0x00, 0x03])).unwrap();
    assert_eq!(&reply[..4], &[0x01, 0x01, 0x01, 0b101]);
    assert!(s.handle_request(&request(&[0x07, 0x03, 0x00, 0x00, 0x00, 0x01])).is_none());
    assert!(s.handle_request(&[0x01, 0x03]).is_none());
    assert_eq!(s.build_exception_response(0x03, 0x02)[..3], [0x01, 0x83, 0x02]);
}

#[test]
fn bounds_check_flags_reads_past_the_end() {
    let mut m = RegisterMap::new();
    m.set_holding_register(0xFFFF, 1);
    assert!(!check_request_in_bounds(&request(&[0x01, 0x03, 0xFF, 0xFF, 0x00, 0x02]), &m));
    assert!(check_request_in_bounds(&request(&[0x01, 0x03, 0xFF, 0xFF, 0x00, 0x01]), &m));
}
