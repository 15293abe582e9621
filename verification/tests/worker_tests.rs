use modbus_bench::worker::{serial_snapshot, tcp_snapshot, tcp_input_step, InputStep, PollSource};
use modbus_bench::frames::ModbusError;
use modbus_bench::crc::verify;
use modbus_bench::emulator::default_scenario;
use modbus_bench::frames::FC_READ_INPUT;
use modbus_bench::worker::{emu_snapshot, emu_traces};

fn hex_to_bytes(s: &str) -> Vec<u8> {
    s.split_whitespace().filter_map(|h| u8::from_str_radix(h, 16).ok()).collect()
}

#[test]
fn emu_traces_produce_valid_frames() {
    let emu = default_scenario();
    let devs = emu_snapshot(&emu);
    assert_eq!(devs.len(), 4);

    let traces = emu_traces(&devs);
    assert_eq!(traces.len(), devs.len() * 3);

    for (i, t) in traces.iter().enumerate() {
        let dev = &devs[i / 3];
        let req = hex_to_bytes(&t.req);
        let resp = hex_to_bytes(&t.resp);
        assert!(verify(&req), "bad CRC in request {i}");
        assert!(verify(&resp), "bad CRC in response {i}");
        assert_eq!(req[0], dev.slave_id);
        assert_eq!(resp[0], dev.slave_id);
        assert!(t.ok);
        assert!(t.err.is_none());
    }
}

#[test]
fn emu_trace_input_regs_match_snapshot() {
    let emu = default_scenario();
    let devs = emu_snapshot(&emu);
    let traces = emu_traces(&devs);

    let t = &traces[0];
    let resp = hex_to_bytes(&t.resp);
    assert_eq!(resp[0], 1);
    assert_eq!(resp[1], FC_READ_INPUT);
    let byte_count = resp[2] as usize;
    assert_eq!(byte_count, 120);
    let mut regs = Vec::new();
    for pair in resp[3..3 + byte_count].chunks_exact(2) {
        regs.push(u16::from_be_bytes([pair[0], pair[1]]));
    }
    let first = f32::from_bits(((regs[0] as u32) << 16) | regs[1] as u32);
    let expected = f32::from_bits(devs[0].channels[0].value);
    assert!((first - expected).abs() < 0.001, "got {first}, expected {expected}");
}

#[test]
fn snapshot_pads_coils_and_holding() {
    let emu = default_scenario();
    let devs = emu_snapshot(&emu);
    assert_eq!(devs[0].coils, vec![true, false, false, false, false, false, false, false]);
    assert_eq!(devs[0].holding.len(), 32);
    assert_eq!(&devs[0].holding[..3], &[30, 10, 0]);
    assert_eq!(devs[0].source, "EMU");
    assert_eq!(devs[2].channels[2].label, "L-1 Water level");
    assert_eq!(devs[2].channels[2].unit, "m");
    assert_eq!(devs[2].channels[2].reg, 4);
    let traces = emu_traces(&devs);
    assert_eq!(traces[1].resp, "01 01 01 01 90 48");
    assert_eq!(traces[0].fc, "READ INPUT REGISTERS (0x04)");
    assert_eq!(traces[0].ms, 5);
    assert_eq!(traces[2].ms, 4);
}

#[test]
fn serial_snapshot_names_board_channels() {
    let mut input: Vec<u16> = Vec::new();
    for i in 0..60u16 {
        input.push(i);
    }
    let snap = serial_snapshot(3, "/dev/ttyUSB0", &input, vec![true, false], vec![7; 16]);
    assert_eq!(snap.slave_id, 3);
    assert_eq!(snap.name, "ESP32 @ /dev/ttyUSB0");
    assert_eq!(snap.source, "/dev/ttyUSB0");
    assert_eq!(snap.channels.len(), 30);
    assert_eq!(snap.channels[0].label, "T-00");
    assert_eq!(snap.channels[0].unit, "°C");
    assert_eq!(snap.channels[0].value, 1);
    assert_eq!(snap.channels[14].label, "T-14");
    assert_eq!(snap.channels[15].label, "P-00");
    assert_eq!(snap.channels[15].unit, "kPa");
    assert_eq!(snap.channels[15].reg, 30);
    assert_eq!(snap.channels[29].label, "P-14");
    assert_eq!(snap.channels[1].value, (2u32 << 16) | 3);
    assert_eq!(snap.coils, vec![true, false]);
    assert_eq!(snap.holding.len(), 16);
}

#[test]
fn tcp_snapshot_names_plain_channels() {
    let input: Vec<u16> = vec![0x4120, 0x0000, 0x3F80, 0x0000, 9];
    let snap = tcp_snapshot(1, "192.168.0.7", 502, &input, vec![], vec![]);
    assert_eq!(snap.name, "Modbus TCP 192.168.0.7:502");
    assert_eq!(snap.source, "TCP");
    assert_eq!(snap.channels.len(), 2);
    assert_eq!(snap.channels[0].label, "CH-00");
    assert_eq!(snap.channels[1].label, "CH-01");
    assert_eq!(snap.channels[1].reg, 2);
    assert_eq!(snap.channels[1].unit, "");
    assert_eq!(f32::from_bits(snap.channels[0].value), 10.0);
    assert_eq!(f32::from_bits(snap.channels[1].value), 1.0);
}

#[test]
fn poll_source_keys() {
    assert_eq!(PollSource::Emu.key(), "EMU");
    let s = PollSource::Serial { port: "COM3".to_string(), baud: 9600 };
    assert_eq!(s.key(), "COM3");
    assert_eq!(s.busy_port(), Some("COM3".to_string()));
    let t = PollSource::Tcp { host: "10.0.0.2".to_string(), port: 1502 };
    assert_eq!(t.key(), "tcp://10.0.0.2:1502");
    assert_eq!(t.busy_port(), None);
}

#[test]
fn tcp_poll_falls_back_on_illegal_address() {
    match tcp_input_step("h", 502, Ok(vec![1, 2])) {
        InputStep::Use(v) => assert_eq!(v, vec![1, 2]),
        _ => panic!("expected the registers"),
    }
    match tcp_input_step("h", 502, Err(ModbusError::IllegalAddress)) {
        InputStep::Retry(n) => assert_eq!(n, 60),
        _ => panic!("expected a retry"),
    }
    match tcp_input_step("h", 502, Err(ModbusError::Timeout)) {
        InputStep::Fail(m) => assert_eq!(m, "h:502: input read failed: timeout (no response)"),
        _ => panic!("expected a failure"),
    }
}
