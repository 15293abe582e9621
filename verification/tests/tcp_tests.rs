use modbus_bench::emulator::Emulator;
use modbus_bench::frames::{parse_read_bits, parse_read_registers, read_pdu, write_single_pdu, FC_READ_COILS, FC_READ_HOLDING, FC_READ_INPUT, FC_WRITE_SINGLE_REG};
use modbus_bench::master::transaction_entry;
use modbus_bench::tcp::{check_pdu_in_bounds, server_entry};
use modbus_bench::emulator::default_scenario;
use modbus_bench::frames::ModbusError;
use modbus_bench::tcp::{
    build_mbap, build_tcp_request, check_request_header, check_response_header, check_response_pdu,
    handle_pdu, is_exception_pdu, next_tid, serve_request,
};

#[test]
fn tcp_server_roundtrip_and_exceptions() {
    let mut emu = default_scenario();
    // One tick of the first sensor of slave 1 (22 ± 4 over an 8 s period).
    let t = 1000.0f64;
    let v = 22.0f32 + 4.0f32 * ((t / 8.0) as f32).sin();
    emu.apply_sensor_value(0, 0, v.to_bits());

    // READ INPUT REGISTERS (0x04), slave 1, addr 0, count 2.
    let frame = serve_request(&mut emu, 1, 1, &[0x04, 0x00, 0x00, 0x00, 0x02]);
    let resp = &frame[7..];
    assert_eq!(resp.len(), 1 + 1 + 4);
    assert_eq!(resp[0], 0x04);
    assert_eq!(resp[1], 4);
    let hi = u16::from_be_bytes([resp[2], resp[3]]);
    let lo = u16::from_be_bytes([resp[4], resp[5]]);
    let value = f32::from_bits(((hi as u32) << 16) | lo as u32);
    assert!((value - 22.0).abs() < 6.0, "unexpected first temp {}", value);

    // WRITE SINGLE REGISTER 0x06: echoed.
    let frame = serve_request(&mut emu, 2, 1, &[0x06, 0x00, 0x00, 0x04, 0xD2]);
    assert_eq!(&frame[7..], &[0x06, 0x00, 0x00, 0x04, 0xD2]);

    // The value now reads back over TCP.
    let frame = serve_request(&mut emu, 3, 1, &[0x03, 0x00, 0x00, 0x00, 0x01]);
    assert_eq!(&frame[7..], &[0x03, 0x02, 0x04, 0xD2]);

    // Unknown function: exception 0x01.
    let frame = serve_request(&mut emu, 4, 1, &[0x7F]);
    assert_eq!(frame[7], 0x7F | 0x80);
    assert_eq!(frame[8], 0x01);

    // Read from a slave that does not exist: exception 0x02.
    let frame = serve_request(&mut emu, 5, 9, &[0x04, 0x00, 0x00, 0x00, 0x02]);
    assert_eq!(frame[7], 0x84);
    assert_eq!(frame[8], 0x02);
}

#[test]
fn tcp_register_reads_keep_the_modbus_limit() {
    let mut emu = default_scenario();
    // 125 registers is the most one read may ask for.
    let got = handle_pdu(&mut emu, 1, 0x03, &[0x00, 0x00, 0x00, 125]).unwrap();
    assert_eq!(got.len(), 1 + 250);
    assert_eq!(got[0], 250);
    // 126, 200 and 2000 registers are refused with exception 0x03.
    assert_eq!(handle_pdu(&mut emu, 1, 0x03, &[0x00, 0x00, 0x00, 126]), Err(0x03));
    assert_eq!(handle_pdu(&mut emu, 1, 0x04, &[0x00, 0x00, 0x00, 200]), Err(0x03));
    assert_eq!(handle_pdu(&mut emu, 1, 0x04, &[0x00, 0x00, 0x07, 0xD0]), Err(0x03));
    assert_eq!(handle_pdu(&mut emu, 1, 0x04, &[0x00, 0x00, 0x00, 0x00]), Err(0x03));
    // Bit reads still go up to 2000.
    let bits = handle_pdu(&mut emu, 1, 0x01, &[0x00, 0x00, 0x07, 0xD0]).unwrap();
    assert_eq!(bits.len(), 1 + 250);
    assert_eq!(handle_pdu(&mut emu, 1, 0x01, &[0x00, 0x00, 0x07, 0xD1]), Err(0x03));
}

#[test]
fn tcp_write_then_read() {
    let mut emu = default_scenario();
    let ack = handle_pdu(&mut emu, 2, 0x06, &[0x00, 0x05, 0xBE, 0xEF]).unwrap();
    assert_eq!(ack, vec![0x00, 0x05, 0xBE, 0xEF]);
    let got = handle_pdu(&mut emu, 2, 0x03, &[0x00, 0x05, 0x00, 0x01]).unwrap();
    assert_eq!(got, vec![0x02, 0xBE, 0xEF]);
    handle_pdu(&mut emu, 2, 0x0F, &[0x00, 0x00, 0x00, 0x03, 0x01, 0b011]).unwrap();
    assert_eq!(handle_pdu(&mut emu, 2, 0x01, &[0x00, 0x00, 0x00, 0x03]).unwrap(), vec![0x01, 0b011]);
    handle_pdu(&mut emu, 2, 0x10, &[0x00, 0x10, 0x00, 0x02, 0x04, 0x00, 0x01, 0x00, 0x02]).unwrap();
    assert_eq!(handle_pdu(&mut emu, 2, 0x03, &[0x00, 0x10, 0x00, 0x02]).unwrap(), vec![0x04, 0, 1, 0, 2]);
    assert_eq!(handle_pdu(&mut emu, 2, 0x03, &[0x00, 0x10, 0x00, 0x00]), Err(0x03));
    assert_eq!(handle_pdu(&mut emu, 2, 0x05, &[0x00, 0x00, 0x12, 0x34]), Err(0x03));
}

#[test]
fn mbap_framing() {
    assert_eq!(build_mbap(0x0102, 5, &[0x03, 0x04]), vec![0x01, 0x02, 0x00, 0x00, 0x00, 0x03, 0x05, 0x03, 0x04]);
    let req = build_tcp_request(3, 1, 0x03, &[0x00, 0x00, 0x00, 0x01]);
    assert_eq!(req, vec![0x00, 0x03, 0x00, 0x00, 0x00, 0x06, 0x01, 0x03, 0x00, 0x00, 0x00, 0x01]);
    assert_eq!(check_request_header(&req[..7]), Some((3, 1, 5)));
    assert_eq!(check_request_header(&[0, 3, 0, 1, 0, 6, 1]), None);
    assert_eq!(check_request_header(&[0, 3, 0, 0, 0, 1, 1]), None);
}

#[test]
fn response_checks() {
    assert_eq!(check_response_header(&[0, 3, 0, 0, 0, 5, 1], 3, 1), Ok(4));
    match check_response_header(&[0, 4, 0, 0, 0, 5, 1], 3, 1) {
        Err(ModbusError::Io(m)) => assert_eq!(m, "tid mismatch: sent 3, got 4"),
        other => panic!("unexpected {:?}", other),
    }
    match check_response_header(&[0, 3, 0, 0, 0, 5, 2], 3, 1) {
        Err(ModbusError::Io(m)) => assert_eq!(m, "bad MBAP header in response"),
        other => panic!("unexpected {:?}", other),
    }
    assert_eq!(check_response_pdu(&[0x03, 0x02, 0x00, 0x64], 0x03), Ok(vec![0x02, 0x00, 0x64]));
    assert_eq!(check_response_pdu(&[0x83, 0x02], 0x03), Err(ModbusError::IllegalAddress));
}

#[test]
fn transaction_ids_skip_zero() {
    assert_eq!(next_tid(1), 2);
    assert_eq!(next_tid(0xFFFF), 1);
}

#[test]
fn server_entry_marks_exceptions() {
    let req = [0, 1, 0, 0, 0, 6, 9, 4, 0, 0, 0, 1];
    let exc = [0, 1, 0, 0, 0, 3, 9, 0x84, 2];
    let e = server_entry(4, &req, &exc, 3);
    assert_eq!(e.transport, "TCP");
    assert!(!e.ok);
    assert_eq!(e.err, Some("exception 0x02".to_string()));
    assert_eq!(e.resp, "00 01 00 00 00 03 09 84 02");
    let good = [0, 1, 0, 0, 0, 5, 1, 4, 2, 0x41, 0xB0];
    let g = server_entry(4, &req, &good, 1);
    assert!(g.ok);
    assert_eq!(g.err, None);
    assert_eq!(g.fc, "READ INPUT REGISTERS (0x04)");
}

#[test]
fn multiple_writes_past_the_address_space_are_out_of_bounds() {
    let emu = default_scenario();
    // FC 0x10, start 0xFFFF, quantity 2, 4 bytes.
    let bad = [0x10, 0xFF, 0xFF, 0x00, 0x02, 0x04, 0, 1, 0, 2];
    assert!(!check_pdu_in_bounds(&emu, 1, &bad));
    // The same write to a unit that does not exist is refused later with 0x02.
    assert!(check_pdu_in_bounds(&emu, 99, &bad));
    let good = [0x10, 0x00, 0x10, 0x00, 0x02, 0x04, 0, 1, 0, 2];
    assert!(check_pdu_in_bounds(&emu, 1, &good));
    assert!(check_pdu_in_bounds(&emu, 1, &[0x03, 0xFF, 0xFF, 0x00, 0x7D]));
    // FC 0x0F, start 0xFFF8, quantity 9, 2 bytes.
    let coils = [0x0F, 0xFF, 0xF8, 0x00, 0x09, 0x02, 0xFF, 0x01];
    assert!(!check_pdu_in_bounds(&emu, 1, &coils));
}

fn exchange(emu: &mut Emulator, tid: u16, unit: u8, fc: u8, pdu: &[u8]) -> (Vec<u8>, Result<Vec<u8>, ModbusError>) {
    let req = build_tcp_request(tid, unit, fc, pdu);
    let (t, u, n) = check_request_header(&req[..7]).unwrap();
    let reply = serve_request(emu, t, u, &req[7..7 + n]);
    let outcome = match check_response_header(&reply[..7], tid, unit) {
        Ok(len) => check_response_pdu(&reply[7..7 + len], fc),
        Err(e) => Err(e),
    };
    (req, outcome)
}

#[test]
fn tcp_master_polls_own_tcp_server() {
    let mut emu = default_scenario();
    // A tick at a moment when every sine is at zero publishes each
    // sensor's base value.
    for di in 0..emu.devices().len() {
        for k in 0..emu.devices()[di].sensors.len() {
            let base = emu.devices()[di].sensors[k].base;
            emu.apply_sensor_value(di, k, base);
        }
    }

    let (_, r) = exchange(&mut emu, 1, 1, FC_READ_INPUT, &read_pdu(0, 2));
    let regs = parse_read_registers(&r.unwrap(), 2).unwrap();
    assert_eq!(regs.len(), 2);
    let v = f32::from_bits(((regs[0] as u32) << 16) | regs[1] as u32);
    assert!((v - 22.0).abs() < 6.0, "unexpected first temp {}", v);

    let (_, w) = exchange(&mut emu, 2, 1, FC_WRITE_SINGLE_REG, &write_single_pdu(0, 0x04D2));
    assert!(w.is_ok());
    let (_, r) = exchange(&mut emu, 3, 1, FC_READ_HOLDING, &read_pdu(0, 1));
    assert_eq!(parse_read_registers(&r.unwrap(), 1).unwrap(), vec![0x04D2]);

    let (_, c) = exchange(&mut emu, 4, 1, FC_READ_COILS, &read_pdu(0, 2));
    assert_eq!(parse_read_bits(&c.unwrap(), 2).unwrap().len(), 2);

    let (_, missing) = exchange(&mut emu, 5, 9, FC_READ_INPUT, &read_pdu(0, 1));
    assert_eq!(missing, Err(ModbusError::IllegalAddress));

    let (req, unknown) = exchange(&mut emu, 6, 1, 0x7F, &[]);
    assert_eq!(unknown, Err(ModbusError::IllegalFunction));
    let entry = transaction_entry("TCP", 0x7F, &req, None, &unknown, 1);
    assert_eq!(entry.transport, "TCP");
    assert!(!entry.ok);
}
