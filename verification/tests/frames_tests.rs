use modbus_bench::frames::{
    build_request, exception_to_error, float_bits_from_regs, parse_read_bits, parse_read_registers,
    parse_response, read_pdu, write_multi_coils_pdu, write_multi_regs_pdu, write_single_pdu, ModbusError,
    FC_READ_COILS, FC_READ_HOLDING, FC_WRITE_SINGLE_REG,
};

#[test]
fn request_frame_matches_known() {
    let frame = build_request(0x01, FC_READ_HOLDING, &read_pdu(0x0000, 0x0001));
    assert_eq!(frame, vec![0x01, 0x03, 0x00, 0x00, 0x00, 0x01, 0x84, 0x0A]);
}

#[test]
fn parse_valid_response() {
    let pdu = parse_response(&[0x01, 0x03, 0x02, 0x00, 0x64, 0xB9, 0xAF], 0x01, FC_READ_HOLDING).unwrap();
    assert_eq!(pdu, vec![0x02, 0x00, 0x64]);
    let data = parse_read_registers(&pdu, 1).unwrap();
    assert_eq!(data, vec![100]);
}

#[test]
fn parse_exception() {
    let err = parse_response(&[0x01, 0x83, 0x02, 0xC0, 0xF1], 0x01, FC_READ_HOLDING).unwrap_err();
    assert_eq!(err, ModbusError::IllegalAddress);
}

#[test]
fn float64_from_regs() {
    let f = f32::from_bits(float_bits_from_regs(0x42CA, 0xA666));
    assert!((f - 101.325).abs() < 0.001);
}

#[test]
fn multi_regs_pdu() {
    let pdu = write_multi_regs_pdu(0x0000, &[0x000A, 0x0014]);
    assert_eq!(pdu, vec![0x00, 0x00, 0x00, 0x02, 0x04, 0x00, 0x0A, 0x00, 0x14]);
}

#[test]
fn short_frame_is_a_timeout() {
    assert_eq!(parse_response(&[0x01, 0x03, 0x02, 0x00], 0x01, FC_READ_HOLDING), Err(ModbusError::Timeout));
}

#[test]
fn corrupted_frame_is_bad_crc() {
    assert_eq!(
        parse_response(&[0x01, 0x03, 0x02, 0x00, 0x64, 0xB9, 0xAE], 0x01, FC_READ_HOLDING),
        Err(ModbusError::BadCrc)
    );
}

#[test]
fn reply_from_other_slave_is_an_io_error() {
    let frame = build_request(0x02, FC_READ_HOLDING, &[0x02, 0x00, 0x64]);
    match parse_response(&frame, 0x01, FC_READ_HOLDING) {
        Err(ModbusError::Io(m)) => assert_eq!(m, "unexpected slave 0x02"),
        other => panic!("unexpected {:?}", other),
    }
}

#[test]
fn reply_with_other_function_is_an_io_error() {
    let frame = build_request(0x01, FC_READ_COILS, &[0x01, 0x01]);
    match parse_response(&frame, 0x01, FC_READ_HOLDING) {
        Err(ModbusError::Io(m)) => assert_eq!(m, "unexpected FC 0x01 (wanted 0x03)"),
        other => panic!("unexpected {:?}", other),
    }
}

#[test]
fn exception_codes_map_to_errors() {
    assert_eq!(exception_to_error(0x01), ModbusError::IllegalFunction);
    assert_eq!(exception_to_error(0x03), ModbusError::IllegalValue);
    assert_eq!(exception_to_error(0x04), ModbusError::ServerFailure);
    assert_eq!(exception_to_error(0x05), ModbusError::Ack);
    assert_eq!(exception_to_error(0x06), ModbusError::Busy);
    assert_eq!(exception_to_error(0x07), ModbusError::Nack);
    assert_eq!(exception_to_error(0x0A), ModbusError::GatewayNoRoute);
    assert_eq!(exception_to_error(0x0B), ModbusError::GatewayTargetFailed);
    assert_eq!(exception_to_error(0x42), ModbusError::Unknown(0x42));
}

#[test]
fn error_messages() {
    assert_eq!(ModbusError::Timeout.message(), "timeout (no response)");
    assert_eq!(ModbusError::IllegalAddress.message(), "illegal data address (0x02)");
    assert_eq!(ModbusError::Unknown(0x0C).message(), "exception 0x0C");
    assert_eq!(ModbusError::Io("broken".to_string()).message(), "IO: broken");
}

#[test]
fn register_parse_errors() {
    match parse_read_registers(&[], 1) {
        Err(ModbusError::Io(m)) => assert_eq!(m, "empty read response"),
        other => panic!("unexpected {:?}", other),
    }
    match parse_read_registers(&[0x04, 0x00, 0x01], 2) {
        Err(ModbusError::Io(m)) => assert_eq!(m, "bad read response: byte_count=4, data=2"),
        other => panic!("unexpected {:?}", other),
    }
}

#[test]
fn bits_parse_in_lsb_order() {
    assert_eq!(parse_read_bits(&[0x01, 0b0000_0101], 3), Ok(vec![true, false, true]));
    match parse_read_bits(&[0x02, 0x01], 3) {
        Err(ModbusError::Io(m)) => assert_eq!(m, "bits response too short"),
        other => panic!("unexpected {:?}", other),
    }
    match parse_read_bits(&[], 3) {
        Err(ModbusError::Io(m)) => assert_eq!(m, "empty bits response"),
        other => panic!("unexpected {:?}", other),
    }
}

#[test]
fn single_and_coil_pdus() {
    assert_eq!(write_single_pdu(0x0102, 0xFF00), vec![0x01, 0x02, 0xFF, 0x00]);
    assert_eq!(
        write_multi_coils_pdu(0x0010, &[true, false, true, true, false, false, false, false, true]),
        vec![0x00, 0x10, 0x00, 0x09, 0x02, 0b0000_1101, 0x01]
    );
    let frame = build_request(0x01, FC_WRITE_SINGLE_REG, &write_single_pdu(0, 42));
    assert_eq!(&frame[..6], &[0x01, 0x06, 0x00, 0x00, 0x00, 0x2A]);
}

#[test]
fn float_bits_put_high_register_first() {
    assert_eq!(float_bits_from_regs(0x42CA, 0xA666), 0x42CA_A666);
}
