use modbus_bench::app_state::PortInfo;
use modbus_bench::discover::{
    describe_port, probe_modbus, probe_step, scan_step, str_contains, to_port_info, PortKind, ProbeStep,
    ScanStep, UsbInfo,
};

fn usb(vid: u16, manufacturer: Option<&str>, product: Option<&str>, serial: Option<&str>) -> PortKind {
    PortKind::Usb(UsbInfo {
        vid,
        pid: 0x7523,
        manufacturer: manufacturer.map(|s| s.to_string()),
        product: product.map(|s| s.to_string()),
        serial_number: serial.map(|s| s.to_string()),
    })
}

#[test]
fn usb_bridge_vendor_is_esp_like() {
    let p = to_port_info("/dev/ttyS9", &usb(0x1A86, Some("QinHeng"), Some("CH340"), Some("")));
    assert!(p.is_esp_like);
    assert!(!p.has_firmware);
    assert_eq!(p.description, "USB: QinHeng CH340");
    assert_eq!(p.product, Some("CH340".to_string()));
    assert_eq!(p.serial, None);
    assert_eq!(p.manufacturer, Some("QinHeng".to_string()));
}

#[test]
fn name_mentioning_usb_is_esp_like() {
    let p = to_port_info("/dev/ttyUSB0", &PortKind::Unknown);
    assert!(p.is_esp_like);
    assert_eq!(p.description, "Serial");
    let q = to_port_info("COM1", &PortKind::Pci);
    assert!(!q.is_esp_like);
    assert_eq!(q.description, "PCI");
    let r = to_port_info("/dev/cu.ESP32", &PortKind::Bluetooth);
    assert!(r.is_esp_like);
    assert_eq!(r.description, "Bluetooth");
}

#[test]
fn usb_description_is_trimmed() {
    assert_eq!(describe_port(&usb(1, None, Some("Dongle"), None)), "USB:  Dongle");
    assert_eq!(describe_port(&usb(1, Some("Acme"), None, None)), "USB: Acme");
    assert_eq!(describe_port(&usb(1, None, None, None)), "USB:");
}

#[test]
fn contains_finds_runs() {
    assert!(str_contains("abcdef", "cde"));
    assert!(str_contains("abc", ""));
    assert!(!str_contains("abc", "abcd"));
    assert!(!str_contains("abcabd", "abe"));
}

fn port(name: &str, esp: bool, product: Option<&str>) -> PortInfo {
    PortInfo {
        name: name.to_string(),
        description: String::new(),
        is_esp_like: esp,
        has_firmware: false,
        manufacturer: None,
        product: product.map(|s| s.to_string()),
        serial: None,
    }
}

#[test]
fn scanner_probes_each_esp_port_once() {
    let tried = vec!["/dev/ttyUSB1".to_string()];
    assert!(scan_step(&port("/dev/ttyUSB0", true, None), &tried, None) == ScanStep::Probe);
    assert!(scan_step(&port("/dev/ttyUSB1", true, None), &tried, None) == ScanStep::Skip);
    assert!(scan_step(&port("/dev/ttyS0", false, None), &tried, None) == ScanStep::Skip);
    assert!(scan_step(&port("/dev/ttyUSB0", true, None), &tried, Some("/dev/ttyUSB0")) == ScanStep::Skip);
    assert!(
        scan_step(&port("/dev/ttyACM0", true, Some("USB JTAG/serial debug unit")), &tried, None)
            == ScanStep::MarkTried
    );
}

#[test]
fn probe_takes_first_answering_slave() {
    assert!(probe_step(1, Some(1)) == ProbeStep::Found(1));
    assert!(probe_step(1, Some(0)) == ProbeStep::Next(2));
    assert!(probe_step(15, None) == ProbeStep::NotFound);
    assert_eq!(probe_modbus(&[None, Some(0), Some(1), Some(1)]), Some(3));
    assert_eq!(probe_modbus(&[None; 20]), None);
    let mut late = vec![None; 20];
    late[15] = Some(1);
    assert_eq!(probe_modbus(&late), None);
    late[14] = Some(2);
    assert_eq!(probe_modbus(&late), Some(15));
    assert_eq!(probe_modbus(&[]), None);
}
