use modbus_bench::register_map::{RegisterKind, RegisterMap};

#[test]
fn test_register_map() {
    let mut map = RegisterMap::new();

    map.set_input_register(0, 0x41C8);
    map.set_input_register(1, 0x0000);

    let values = map.read_input_registers(0, 2).unwrap();
    assert_eq!(values, vec![0x41C8, 0x0000]);
}

#[test]
fn test_holding_registers() {
    let mut map = RegisterMap::new();
    map.set_holding_register(0, 42);

    let values = map.read_holding_registers(0, 1).unwrap();
    assert_eq!(values[0], 42);

    map.write_holding_register(0, 100).unwrap();
    let values = map.read_holding_registers(0, 1).unwrap();
    assert_eq!(values[0], 100);
}

#[test]
fn test_coils() {
    let mut map = RegisterMap::new();
    map.set_coil(0, true);
    map.set_coil(1, false);

    let coils = map.read_coils(0, 2).unwrap();
    assert_eq!(coils, vec![true, false]);
}

#[test]
fn test_illegal_address() {
    let map = RegisterMap::new();
    assert_eq!(map.read_holding_registers(0, 1), Err(0x02));
}

#[test]
fn getters_see_what_setters_wrote() {
    let mut map = RegisterMap::new();
    assert_eq!(map.get_input_register(5), None);
    map.set_input_register(5, 7);
    assert_eq!(map.get_input_register(5), Some(7));
    map.set_holding_register(9, 11);
    assert_eq!(map.get_holding_register(9), Some(11));
    assert_eq!(map.get_coil(3), None);
    map.write_coil(3, true).unwrap();
    assert_eq!(map.get_coil(3), Some(true));
}

#[test]
fn read_stops_at_first_missing_register() {
    let mut map = RegisterMap::new();
    map.set_input_register(0, 1);
    map.set_input_register(2, 3);
    assert_eq!(map.read_input_registers(0, 3), Err(0x02));
    assert_eq!(map.read_input_registers(0, 1), Ok(vec![1]));
    assert_eq!(map.read_coils(0, 1), Err(0x02));
    // A read of zero registers finds nothing missing.
    assert_eq!(map.read_holding_registers(0, 0), Ok(vec![]));
}

#[test]
fn read_runs_off_end_only_past_the_address_space() {
    let mut map = RegisterMap::new();
    map.set_holding_register(0xFFFF, 1);
    assert!(!map.read_runs_off_end(RegisterKind::Holding, 0xFFFF, 1));
    assert!(map.read_runs_off_end(RegisterKind::Holding, 0xFFFF, 2));
    assert!(!map.read_runs_off_end(RegisterKind::Input, 0xFFFF, 2));
}

#[test]
fn sensor_values_land_in_their_register_pair() {
    let mut m = RegisterMap::new();
    let v = 22.5f32;
    m.update_sensor_data(0, 0, v.to_bits());
    m.update_sensor_data(0, 2, (-1.0f32).to_bits());
    let b = v.to_be_bytes();
    assert_eq!(
        m.read_input_registers(0, 2).unwrap(),
        vec![u16::from_be_bytes([b[0], b[1]]), u16::from_be_bytes([b[2], b[3]])]
    );
    assert_eq!(m.read_input_registers(4, 2).unwrap(), vec![0xBF80, 0x0000]);
    assert!(m.read_input_registers(2, 1).is_err());
    assert_eq!(m.read_holding_registers(0, 1).ok(), None);
}
