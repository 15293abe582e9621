use modbus_bench::emulator::{default_scenario, DataType, Emulator};

fn bits(x: f32) -> u32 {
    x.to_bits()
}

#[test]
fn scenario_creates_devices() {
    let e = default_scenario();
    assert_eq!(e.devices().len(), 4);
    assert_eq!(e.devices()[0].sensors.len(), 3);
    assert_eq!(e.devices()[1].sensors.len(), 3);
    assert_eq!(e.devices()[2].sensors.len(), 3);
    assert_eq!(e.devices()[3].sensors.len(), 3);
    let ids: Vec<u8> = e.devices().iter().map(|d| d.slave_id).collect();
    assert_eq!(ids, vec![1, 2, 3, 4]);
}

#[test]
fn many_devices_can_be_added() {
    let e = default_scenario();
    assert_eq!(e.devices().len(), 4);
    let ids: Vec<u8> = e.devices().iter().map(|d| d.slave_id).collect();
    assert_eq!(ids, vec![1, 2, 3, 4]);
}

#[test]
fn remove_sensor_frees_device_list() {
    let mut emu = Emulator::new();
    emu.add_device(1, "D", "");
    emu.add_sensor(0, "A", DataType::Test, bits(1.0), bits(0.0), bits(1.0)).unwrap();
    emu.add_sensor(0, "B", DataType::Test, bits(1.0), bits(0.0), bits(1.0)).unwrap();
    assert_eq!(emu.devices()[0].sensors.len(), 2);

    emu.remove_sensor(0, 0).unwrap();
    assert_eq!(emu.devices()[0].sensors.len(), 1);
    assert_eq!(emu.devices()[0].sensors[0].name, "B");

    assert!(emu.remove_sensor(0, 5).is_err());
    assert!(emu.remove_sensor(9, 0).is_err());
}

#[test]
fn sensors_write_input_regs() {
    let mut emu = Emulator::new();
    emu.add_device(1, "D", "");
    emu.add_sensor(0, "T1", DataType::TemperatureC, bits(20.0), bits(1.0), bits(1.0)).unwrap();
    // A tick publishes the sensor's current value in its register pair.
    emu.apply_sensor_value(0, 0, bits(20.5));
    let regs = emu.read_input_regs(1, 0, 2).unwrap();
    assert_ne!(regs[0], 0);
    assert!(regs[0] != 0 || regs[1] != 0);
    assert_eq!(((regs[0] as u32) << 16) | regs[1] as u32, bits(20.5));
}

#[test]
fn regs_read_write() {
    let mut emu = Emulator::new();
    emu.add_device(3, "D", "");
    emu.write_holding_reg(3, 10, 0xABCD).unwrap();
    assert_eq!(emu.read_holding_regs(3, 10, 1).unwrap(), vec![0xABCD]);
    emu.write_coil(3, 2, true).unwrap();
    assert_eq!(emu.read_coils(3, 2, 1).unwrap(), vec![true]);
}

#[test]
fn missing_device_returns_illegal_address() {
    let mut emu = Emulator::new();
    assert_eq!(emu.read_input_regs(9, 0, 1), Err(0x02));
}

#[test]
fn sensors_take_the_lowest_free_pair() {
    let mut emu = Emulator::new();
    emu.add_device(1, "D", "");
    emu.add_sensor(0, "A", DataType::Test, 0, 0, 0).unwrap();
    emu.add_sensor(0, "B", DataType::Test, 0, 0, 0).unwrap();
    assert_eq!(emu.devices()[0].sensors[0].input_reg, 0);
    assert_eq!(emu.devices()[0].sensors[1].input_reg, 2);
    emu.remove_sensor(0, 0).unwrap();
    assert_eq!(emu.free_pair(0), Some(0));
    emu.add_sensor(0, "C", DataType::Flow, 0, 0, 0).unwrap();
    assert_eq!(emu.devices()[0].sensors[1].input_reg, 0);
    assert_eq!(emu.free_pair(0), Some(4));
    assert_eq!(emu.free_pair(7), None);
}

#[test]
fn add_sensor_to_missing_device_fails() {
    let mut emu = Emulator::new();
    assert_eq!(emu.add_sensor(0, "A", DataType::Test, 0, 0, 0), Err("device not found".to_string()));
    emu.add_device(1, "D", "");
    assert_eq!(
        emu.remove_sensor(0, 5),
        Err("sensor index 5 out of range (0 sensors)".to_string())
    );
}

#[test]
fn multi_writes_and_discrete_inputs() {
    let mut emu = Emulator::new();
    emu.add_device(5, "D", "");
    emu.write_holding_regs(5, 100, &[1, 2, 3]).unwrap();
    assert_eq!(emu.read_holding_regs(5, 99, 5).unwrap(), vec![0, 1, 2, 3, 0]);
    emu.write_coils(5, 0, &[true, false, true]).unwrap();
    assert_eq!(emu.read_coils(5, 0, 4).unwrap(), vec![true, false, true, false]);
    assert_eq!(emu.read_discrete_inputs(5, 0, 2).unwrap(), vec![false, false]);
    assert_eq!(emu.write_coil(6, 0, true), Err(0x02));
    emu.remove_device(0);
    assert!(emu.devices().is_empty());
    emu.remove_device(3);
}

#[test]
fn scenario_details() {
    let e = default_scenario();
    let d0 = &e.devices()[0];
    assert_eq!(d0.name, "Pump Station");
    assert!(d0.description.ends_with(" | sim"));
    assert_eq!(d0.sensors[2].name, "P-101 Discharge");
    assert_eq!(f32::from_bits(d0.sensors[2].base), 101.325);
    assert_eq!(d0.sensors[2].input_reg, 4);
    assert_eq!(e.devices()[3].sensors[1].data_type, DataType::HumidityPct);
    assert_eq!(DataType::HumidityPct.label(), "Humidity (%)");
    assert_eq!(DataType::TemperatureC.unit(), "°C");
    let mut e = e;
    assert_eq!(e.read_holding_regs(1, 0, 2).unwrap(), vec![30, 10]);
    assert_eq!(e.read_coils(3, 0, 2).unwrap(), vec![false, false]);
    assert_eq!(e.read_input_regs(4, 80, 1).unwrap(), vec![0]);
}
