use modbus_bench::app_state::{App, Event, FieldEdit, PortInfo, SensorRow, SerialOp};
use modbus_bench::emulator::{default_scenario, DataType};
use modbus_bench::keys::{Key, KeyAction};
use modbus_bench::ui::Tab;

/// The form's numbers as the shell reads them.
fn form_bits(app: &App) -> (u32, u32, u32) {
    let base = app.sensor_form.base.parse::<f32>().unwrap_or(25.0);
    let amp = app.sensor_form.amplitude.parse::<f32>().unwrap_or(3.0);
    let period = app.sensor_form.period.parse::<f32>().unwrap_or(8.0).max(0.1);
    (base.to_bits(), amp.to_bits(), period.to_bits())
}

fn add_sensor_from_form(app: &mut App) {
    let (b, a, p) = form_bits(app);
    app.add_sensor(b, a, p);
}

fn port(name: &str, esp: bool) -> PortInfo {
    PortInfo {
        name: name.to_string(),
        description: String::new(),
        is_esp_like: esp,
        has_firmware: false,
        manufacturer: None,
        product: None,
        serial: None,
    }
}

#[test]
fn register_form_edit_focus_and_write_flow() {
    let mut app = App::new();
    app.connect_emulator();
    app.tab = Tab::Registers;
    assert_eq!(app.reg_focus, 0);

    app.move_focus(1);
    app.move_focus(1);
    app.move_focus(1);
    app.move_focus(1);
    assert_eq!(app.reg_focus, 4);

    app.begin_edit_focused();
    assert!(app.is_editing());
    app.edit_char('4');
    app.edit_char('2');
    assert_eq!(app.reg_form.value, "042");
    app.cancel_edit();
    assert!(!app.is_editing());

    app.write_register();
    let got = app.emu.read_holding_regs(1, 0, 1).expect("holding reg readable");
    assert_eq!(got, vec![42]);

    app.reg_form.value = String::new();
    app.read_registers();
    assert!(app.status_line.contains("[42,"), "status_line должен содержать результат чтения: {}", app.status_line);
}

#[test]
fn sensor_form_edit_add_flow() {
    let mut app = App::new();
    app.connect_emulator();
    app.tab = Tab::Sensors;

    app.sensor_focus = 0;
    app.begin_edit_focused();
    assert!(matches!(app.editing, Some(FieldEdit::Sensor(0))));
    app.edit_char('1');
    assert_eq!(app.sensor_form.device_idx, "01");
    app.cancel_edit();

    app.sensor_focus = 1;
    app.begin_edit_focused();
    app.edit_char('X');
    app.edit_char('-');
    app.edit_char('1');
    app.cancel_edit();
    assert_eq!(app.sensor_form.name, "New SensorX-1");

    app.sensor_focus = 2;
    app.begin_edit_focused();
    app.edit_char('9');
    assert_eq!(app.sensor_form.base, "25.09");
    app.edit_backspace();
    assert_eq!(app.sensor_form.base, "25.0");
    app.cancel_edit();

    let sensors_before = app.emu.devices()[1].sensors.len();
    add_sensor_from_form(&mut app);
    let dev = &app.emu.devices()[1];
    assert_eq!(dev.sensors.len(), sensors_before + 1);
    assert_eq!(app.sensor_form.name, "New SensorX-1");
}

#[test]
fn move_focus_wraps_edit_stays_inactive() {
    let mut app = App::new();
    app.tab = Tab::Registers;
    for _ in 0..3 {
        app.move_focus(1);
    }
    assert_eq!(app.reg_focus, 3);
    app.move_focus(1);
    assert_eq!(app.reg_focus, 4);
    app.move_focus(1);
    assert_eq!(app.reg_focus, 0);
    app.tab = Tab::Sensors;
    assert_eq!(app.sensor_focus, 0);
    app.move_focus(-1);
    assert_eq!(app.sensor_focus, 4);
    app.move_focus(-1);
    assert_eq!(app.sensor_focus, 3);
    assert!(!app.is_editing());
}

#[test]
fn sensor_manage_toggle_moves_to_first_sensor() {
    let mut app = App::new();
    app.tab = Tab::Sensors;
    assert!(!app.sensor_manage);
    app.toggle_sensor_manage();
    assert!(app.sensor_manage);
    assert_eq!(app.sensor_selected, 1);
    assert!(matches!(app.sensor_rows()[app.sensor_selected], SensorRow::Sensor(0, 0)));
    app.toggle_sensor_manage();
    assert!(!app.sensor_manage);
}

#[test]
fn sensor_manage_nav_and_delete() {
    let mut app = App::new();
    app.connect_emulator();
    app.tab = Tab::Sensors;

    assert_eq!(app.sensor_selected, 0);
    assert!(matches!(app.sensor_rows()[app.sensor_selected], SensorRow::Device(0)));

    app.sensor_nav(1);
    app.sensor_nav(1);
    app.sensor_nav(1);
    assert!(
        matches!(app.sensor_rows()[app.sensor_selected], SensorRow::Sensor(0, 2)),
        "3 шага -> последний датчик устройства 0 (idx {})",
        app.sensor_selected
    );

    app.sensor_nav(1);
    assert!(matches!(app.sensor_rows()[app.sensor_selected], SensorRow::Device(1)));

    app.sensor_nav(-1);
    assert!(matches!(app.sensor_rows()[app.sensor_selected], SensorRow::Sensor(0, 2)));

    app.sensor_selected = 0;
    app.sensor_nav(-1);
    assert!(matches!(app.sensor_rows()[app.sensor_selected], SensorRow::Sensor(3, 2)));

    app.sensor_nav(1);
    assert!(matches!(app.sensor_rows()[app.sensor_selected], SensorRow::Device(0)));

    app.sensor_selected = 3;
    app.remove_selected();
    let sensors = &app.emu.devices()[0].sensors;
    assert_eq!(sensors.len(), 2, "девайс 0: было 3, стало 2");
    let names: Vec<&str> = sensors.iter().map(|s| s.name.as_str()).collect();
    assert_eq!(names, vec!["T-101 Inlet", "T-202 Outlet"]);

    assert!(matches!(app.sensor_rows()[app.sensor_selected], SensorRow::Sensor(..),));
}

#[test]
fn remove_device_via_manage_deletes_whole_slave() {
    let mut app = App::new();
    app.connect_emulator();
    app.tab = Tab::Sensors;

    app.sensor_selected = 4;
    assert!(matches!(app.sensor_rows()[app.sensor_selected], SensorRow::Device(1)));
    app.remove_selected();

    let devs = app.emu.devices();
    assert_eq!(devs.len(), 3, "устройство Test Device удалено: 4 -> 3");
    let ids: Vec<u8> = devs.iter().map(|d| d.slave_id).collect();
    assert_eq!(ids, vec![1, 3, 4], "slave 2 ушёл, порядок сохранён");

    assert!(matches!(app.sensor_rows()[app.sensor_selected], SensorRow::Sensor(..)));
}

#[test]
fn refuses_to_delete_last_device() {
    let mut app = App::new();
    app.connect_emulator();

    app.emu.remove_device(0);
    app.emu.remove_device(0);
    app.emu.remove_device(0);
    assert_eq!(app.emu.devices().len(), 1);

    app.sensor_selected = 0;
    assert!(matches!(app.sensor_rows()[app.sensor_selected], SensorRow::Device(0)));
    app.remove_selected();
    assert_eq!(app.emu.devices().len(), 1, "последнее устройство не удаляется");
}

#[test]
fn add_device_creates_unique_slave() {
    let mut app = App::new();
    app.connect_emulator();
    app.add_device();
    app.add_device();

    let devs = app.emu.devices();
    assert_eq!(devs.len(), 6, "4 + 2 новых");
    let ids: Vec<u8> = devs.iter().map(|d| d.slave_id).collect();
    assert_eq!(ids, vec![1, 2, 3, 4, 5, 6], "slave id уникальны и растут");
    let names: Vec<&str> = devs.iter().map(|d| d.name.as_str()).collect();
    assert_eq!(names[4], "Device 1");
    assert_eq!(names[5], "Device 2");

    app.sensor_form.device_idx = "4".to_string();
    let before = app.emu.devices()[4].sensors.len();
    add_sensor_from_form(&mut app);
    let after = app.emu.devices()[4].sensors.len();
    assert_eq!(after, before + 1);
}

#[test]
fn many_devices_scenario_from_app() {
    let app = App::new();
    assert_eq!(app.emu.devices().len(), default_scenario().devices().len());
}

#[test]
fn default_sensor_names_are_numbered() {
    let mut app = App::new();
    add_sensor_from_form(&mut app);
    assert_eq!(app.emu.devices()[0].sensors[3].name, "New Sensor 4");
    assert_eq!(app.emu.devices()[0].sensors[3].input_reg, 6);
    app.sensor_form.name = "   ".to_string();
    add_sensor_from_form(&mut app);
    assert_eq!(app.emu.devices()[0].sensors[4].name, "Sensor");
    app.sensor_form.device_idx = "9".to_string();
    add_sensor_from_form(&mut app);
    assert_eq!(app.logs.back().unwrap().text, "Add sensor failed: device not found");
}

#[test]
fn log_is_capped() {
    let mut app = App::new();
    for i in 0..310u32 {
        app.log(0, format!("line {i}"));
    }
    assert_eq!(app.logs.len(), 300);
    assert_eq!(app.logs.front().unwrap().text, "line 10");
}

#[test]
fn emulator_toggle_and_serial_state() {
    let mut app = App::new();
    assert!(!app.is_connected());
    app.toggle_emulator();
    assert!(app.is_emu());
    assert_eq!(app.status_line, "Connected: EMULATOR");
    app.toggle_emulator();
    assert!(!app.is_connected());
    assert_eq!(app.status_line, "Disconnected");
    app.serial_connected("/dev/ttyUSB0");
    assert!(app.is_connected() && !app.is_emu());
    assert_eq!(app.serial_port.as_deref(), Some("/dev/ttyUSB0"));
    app.disconnect_serial();
    assert!(!app.is_connected());
    assert!(app.serial_port.is_none());
    app.serial_failed("COM9", "busy");
    assert_eq!(app.status_line, "FAILED: COM9");
    assert_eq!(app.logs.back().unwrap().text, "Failed to open COM9: busy");
}

#[test]
fn serial_mode_hands_work_to_the_shell() {
    let mut app = App::new();
    assert_eq!(app.read_registers(), None);
    assert_eq!(app.status_line, "Not connected: press [e] for emulator, or [c] in Ports");
    app.serial_connected("p");
    app.reg_form.reg_type = 0;
    app.reg_form.count = "500".to_string();
    assert_eq!(app.read_registers(), Some(SerialOp::ReadRegisters { reg_type: 0, start: 0, count: 125 }));
    app.reg_form.reg_type = 2;
    app.reg_form.value = "x".to_string();
    assert_eq!(app.write_register(), Some(SerialOp::WriteRegister { reg_type: 2, addr: 0, value: 0 }));
    app.serial_read_done(Ok(vec![1, 2]));
    assert_eq!(app.status_line, "[1, 2]");
    app.serial_write_done(5, 6, Err(modbus_bench::frames::ModbusError::Timeout));
    assert_eq!(app.status_line, "Write failed: timeout (no response)");
}

#[test]
fn emulator_read_failures_are_reported() {
    let mut app = App::new();
    app.connect_emulator();
    app.tab = Tab::Registers;
    app.reg_form.slave_id = "77".to_string();
    app.read_registers();
    assert_eq!(app.status_line, "Read failed: exception 0x02");
    app.reg_form.slave_id = "2".to_string();
    app.reg_form.reg_type = 2;
    app.reg_form.start = "0".to_string();
    app.reg_form.count = "3".to_string();
    app.read_registers();
    assert_eq!(app.status_line, "[0, 0, 0]");
    assert_eq!(app.logs.back().unwrap().text, "Read 3 regs from slave 2");
}

#[test]
fn scan_events_log_hotplug() {
    let mut app = App::new();
    app.handle_event(Event::Scan(vec![port("/dev/ttyUSB0", true), port("/dev/ttyS0", false)]));
    let texts: Vec<String> = app.logs.iter().map(|l| l.text.clone()).collect();
    assert_eq!(texts, vec!["🔌 ESP32 detected: /dev/ttyUSB0", "+ Port: /dev/ttyS0"]);
    app.serial_connected("/dev/ttyUSB0");
    app.selected_port = 1;
    assert_eq!(
        app.handle_event(Event::Scan(vec![port("/dev/ttyS0", false)])),
        KeyAction::CloseSerial { stop_poller: true }
    );
    let tail: Vec<String> = app.logs.iter().rev().take(3).map(|l| l.text.clone()).collect();
    assert_eq!(tail, vec!["/dev/ttyUSB0 disconnected", "- Port removed: /dev/ttyUSB0", "Connected to /dev/ttyUSB0"]);
    assert!(app.serial_port.is_none());
    assert!(!app.is_connected());
    assert_eq!(app.selected_port, 0);
    app.handle_event(Event::Probe { port: "/dev/ttyS0".to_string(), slave: Some(3) });
    assert!(app.ports[0].has_firmware);
    assert_eq!(app.ports[0].status_label(), "Modbus");
    app.handle_event(Event::PollError("gone".to_string()));
    assert_eq!(app.last_poll_error.as_deref(), Some("gone"));
    app.handle_event(Event::Ticked);
    assert_eq!(app.tick, 1);
}

#[test]
fn keys_drive_the_front_end() {
    let mut app = App::new();
    assert_eq!(app.handle_key(Key::Char('e'), false), KeyAction::CloseSerial { stop_poller: false });
    assert!(app.is_emu());
    app.handle_key(Key::Tab, false);
    assert_eq!(app.tab, Tab::Ports);
    assert_eq!(app.handle_key(Key::Char('c'), false), KeyAction::Nothing);
    assert_eq!(app.logs.back().unwrap().text, "No ports found");
    app.handle_key(Key::BackTab, false);
    app.handle_key(Key::BackTab, false);
    assert_eq!(app.tab, Tab::Help);
    app.handle_key(Key::F(1), false);
    assert_eq!(app.tab, Tab::Help);
    app.tab = Tab::Sensors;
    app.handle_key(Key::Char('m'), false);
    assert!(app.sensor_manage);
    app.handle_key(Key::Esc, false);
    assert!(!app.sensor_manage);
    assert!(!app.should_quit);
    app.handle_key(Key::Char('5'), false);
    assert_eq!(app.sensor_form.kind, DataType::LevelM);
    assert_eq!(app.handle_key(Key::Char('a'), false), KeyAction::AddSensor);
    app.handle_key(Key::Enter, false);
    app.handle_key(Key::Char('q'), false);
    assert!(!app.should_quit);
    assert_eq!(app.sensor_form.device_idx, "0q");
    app.handle_key(Key::Esc, false);
    app.tab = Tab::Firmware;
    assert_eq!(app.handle_key(Key::Char('i'), false), KeyAction::Nothing);
    assert_eq!(app.logs.back().unwrap().text, "No port selected");
    app.fw_port = Some("COM3".to_string());
    assert_eq!(app.handle_key(Key::Char('b'), false), KeyAction::Backup("COM3".to_string()));
    app.set_backups(vec!["a.bin".to_string(), "b.bin".to_string()]);
    assert_eq!(
        app.handle_key(Key::Char('o'), false),
        KeyAction::Restore("COM3".to_string(), "b.bin".to_string())
    );
    app.tab = Tab::Log;
    app.handle_key(Key::Enter, false);
    assert_eq!(app.logs.len(), 1);
    assert_eq!(app.handle_key(Key::Up, false), KeyAction::Scroll(-1));
    app.busy = true;
    assert_eq!(app.handle_key(Key::Char('e'), false), KeyAction::Nothing);
    assert!(app.is_emu());
    app.busy = false;
    app.handle_key(Key::Char('c'), true);
    assert!(app.should_quit);
}

#[test]
fn key_safe_guards_overflowing_keys() {
    let mut app = App::new();
    app.tab = Tab::Registers;
    app.connect_emulator();
    app.reg_form.start = "65530".to_string();
    assert!(!app.key_safe(Key::Char('r')));
    app.reg_form.start = "65000".to_string();
    assert!(app.key_safe(Key::Char('r')));
    app.tab = Tab::Sensors;
    assert!(app.key_safe(Key::Char('n')));
    app.emu.add_device(255, "Top", "");
    assert!(!app.key_safe(Key::Char('n')));
}

#[test]
fn clicks_pick_rows_and_tabs() {
    let mut app = App::new();
    app.click_tab(15);
    assert_eq!(app.tab, Tab::Ports);
    app.click_tab(12);
    assert_eq!(app.tab, Tab::Ports);
    app.tab = Tab::Registers;
    app.left_click(3 + 1 + 6, 2, 100);
    assert_eq!(app.reg_focus, 2);
    app.tab = Tab::Sensors;
    app.left_click(3 + 3, 10, 100);
    assert_eq!(app.sensor_selected, 2);
    app.left_click(3 + 1 + 7, 80, 100);
    assert_eq!(app.sensor_focus, 3);
}

#[test]
fn tcp_test_server_serves_the_emulator() {
    let mut app = App::new();
    // Write holding register 5 of unit 1, then read it back.
    let w = app.serve_tcp(3, 1, &[0x06, 0x00, 0x05, 0x12, 0x34]).unwrap();
    assert_eq!(w, vec![0, 3, 0, 0, 0, 6, 1, 0x06, 0x00, 0x05, 0x12, 0x34]);
    let r = app.serve_tcp(4, 1, &[0x03, 0x00, 0x05, 0x00, 0x01]).unwrap();
    assert_eq!(r, vec![0, 4, 0, 0, 0, 5, 1, 0x03, 2, 0x12, 0x34]);
    // A multiple write past 0xFFFF is not served.
    assert!(app.serve_tcp(5, 1, &[0x10, 0xFF, 0xFF, 0x00, 0x02, 0x04, 0, 1, 0, 2]).is_none());
}

#[test]
fn tcp_master_source_comes_and_goes() {
    let mut app = App::new();
    app.tcp_connected("tcp://127.0.0.1:1502");
    assert_eq!(app.source, Some("tcp://127.0.0.1:1502".to_string()));
    assert_eq!(app.status_line, "Connected: tcp://127.0.0.1:1502");
    assert!(app.is_connected());
    assert!(!app.is_emu());
    app.tcp_closed("tcp://10.0.0.1:502");
    assert!(app.source.is_some());
    app.tcp_closed("tcp://127.0.0.1:1502");
    assert_eq!(app.source, None);
    assert_eq!(app.logs.back().unwrap().text, "Disconnected from tcp://127.0.0.1:1502");
}

#[test]
fn closing_the_serial_side_stops_its_poller() {
    let mut app = App::new();
    app.handle_event(Event::Scan(vec![port("/dev/ttyUSB0", true)]));
    app.serial_connected("/dev/ttyUSB0");
    app.tab = Tab::Ports;
    // Disconnecting a polled serial port closes it and stops the poller.
    assert_eq!(app.handle_key(Key::Char('d'), false), KeyAction::CloseSerial { stop_poller: true });
    assert!(app.serial_port.is_none());
    assert!(!app.is_connected());
    // With nothing polled, the master is closed and no poller is stopped.
    assert_eq!(app.handle_key(Key::Char('d'), false), KeyAction::CloseSerial { stop_poller: false });
    // Starting the test server replaces a polled serial source.
    app.serial_connected("/dev/ttyUSB0");
    assert_eq!(app.handle_key(Key::Char('e'), false), KeyAction::CloseSerial { stop_poller: true });
    assert!(app.is_emu());
    assert!(app.serial_port.is_none());
    // Stopping the test server has no serial side to close.
    assert_eq!(app.handle_key(Key::Char('e'), false), KeyAction::Nothing);
    assert!(!app.is_connected());
    // Disconnecting while the emulator runs closes the master but keeps
    // the emulator polled.
    app.handle_key(Key::Char('e'), false);
    assert_eq!(app.handle_key(Key::Char('d'), false), KeyAction::CloseSerial { stop_poller: false });
    assert!(app.is_emu());
    // Scans that keep the open port, or with no port open, ask for nothing.
    app.serial_connected("/dev/ttyUSB0");
    assert_eq!(app.handle_event(Event::Scan(vec![port("/dev/ttyUSB0", true)])), KeyAction::Nothing);
    assert_eq!(app.handle_event(Event::Ticked), KeyAction::Nothing);
}
