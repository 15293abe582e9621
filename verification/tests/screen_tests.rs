use modbus_bench::app_state::App;
use modbus_bench::screen::{
    bus_lines, bus_title, bus_window, dash_scroll, entry_clips_ok, devices_title, help_lines, help_window, Span, Tone, HELP_LINES,
};
use modbus_bench::trace::TraceEntry;
use modbus_bench::ui::Tab;
use modbus_bench::worker::emu_snapshot;

fn texts(line: &[Span]) -> String {
    line.iter().map(|s| s.text.clone()).collect::<Vec<_>>().join("")
}

#[test]
fn help_page_has_every_section() {
    let h = help_lines();
    assert_eq!(h.len(), HELP_LINES);
    assert_eq!(h[1][0].text, " GLOBAL");
    assert!(h[1][0].tone == Tone::CyanBold);
    assert_eq!(h[h.len() - 1][0].text, " becomes connected, and you see its live registers.");
    assert!(h.iter().any(|l| l[0].text == " BUS (Modbus frame inspector)"));
}

#[test]
fn footer_and_status_follow_the_state() {
    let mut app = App::new();
    let f = app.footer_lines();
    assert_eq!(texts(&f[0]), " [q] quit  [Tab] next  [e] toggle emu  [R] rescan  [F1] help");
    assert_eq!(texts(&f[1]), "   [↑↓] select  [PgUp/PgDn ▾] page  [space] pump");
    assert_eq!(app.status_text(None), " Dashboard — NOT CONNECTED | tick=0 | poll: 0 devices");
    app.connect_emulator();
    app.tab = Tab::Ports;
    assert_eq!(
        app.status_text(Some("127.0.0.1:1502")),
        " Ports — EMULATOR | tick=0 | poll: 0 devices | TCP server:127.0.0.1:1502"
    );
    let mut t = App::new();
    t.tcp_connected("tcp://10.0.0.5:502");
    assert_eq!(t.status_text(None), " Dashboard — TCP master → 10.0.0.5:502 | tick=0 | poll: 0 devices");
}

#[test]
fn dashboard_shows_notice_then_devices() {
    let mut app = App::new();
    let empty = app.dashboard_lines(&Vec::new());
    assert_eq!(empty.len(), 4);
    assert_eq!(texts(&empty[1]), " │  No data. Start the test server ([e])    │");

    app.connect_emulator();
    let snap = emu_snapshot(&app.emu);
    app.handle_event(modbus_bench::app_state::Event::Snapshot(snap));
    let values: Vec<Vec<String>> = app
        .snapshot
        .iter()
        .map(|d| d.channels.iter().map(|c| format!("{:>7.2}", f32::from_bits(c.value))).collect())
        .collect();
    let lines = app.dashboard_lines(&values);
    assert_eq!(lines[0].len(), 1);
    assert_eq!(lines[1][0].text, " ▸ ◆ Slave 1: Pump Station");
    assert!(lines[1][0].tone == Tone::YellowBold);
    assert_eq!(lines[1][1].text, "   [EMU]  ← active");
    assert_eq!(lines[2][0].text, "   T-101 Inlet   22.00 °C ");
    let coil_line = lines.iter().find(|l| l[0].text.starts_with("   Coil 0")).unwrap();
    assert_eq!(coil_line[0].text, "   Coil 0: ● ON ");
    assert_eq!(coil_line[1].text, "  [space]  ◀ toggles this coil");

    let map = app.dashboard_rows();
    let (scroll, seen) = dash_scroll(&map, 1, 5, lines.len(), 0, 0);
    assert_eq!(seen, 1);
    assert!(scroll <= map.iter().position(|r| *r == Some(1)).unwrap());
    assert_eq!(devices_title(0, 5), " Devices ");
    assert_eq!(devices_title(3, 5), " Devices [scrolled 8..] ");
}

#[test]
fn forms_mark_focus_and_editing() {
    let mut app = App::new();
    app.tab = Tab::Registers;
    let r = app.register_lines();
    assert_eq!(texts(&r[3]), " Reg type : HOLDING   [t] change   [↑↓] focus  [enter] edit");
    assert_eq!(r[4][0].text, "       Slave ID : ");
    assert_eq!(r[4][1].text, "1  ←");
    assert!(r[4][1].tone == Tone::YellowBold);
    assert_eq!(texts(&r[13]), " ! no target: press [e] for emulator, or connect in Ports");
    app.begin_edit_focused();
    let e = app.register_lines();
    assert_eq!(e[4][1].text, "1 ■");
    assert!(e[4][1].tone == Tone::Editing);

    let s = app.sensor_form_lines();
    assert_eq!(texts(&s[5]), " Type         : Temperature (°C)   [1..6] change");
}

#[test]
fn sensor_list_has_device_headers_and_sensors() {
    let app = App::new();
    let numbers: Vec<Vec<String>> =
        app.emu.devices().iter().map(|d| d.sensors.iter().map(|_| "n".to_string()).collect()).collect();
    let items = app.sensor_list(&numbers);
    assert_eq!(items.len(), app.sensor_rows().len());
    assert_eq!(items[0].len(), 1);
    assert_eq!(texts(&items[0][0]), "◆ Slave 1 — Pump Station ");
    assert_eq!(texts(&items[1][0]), "●  T-101 Inlet  Temperature (°C)  n");
    let second_device = items.iter().skip(1).find(|it| it.len() == 2).unwrap();
    assert_eq!(second_device[0][0].text, "");
}

#[test]
fn panes_of_ports_tcp_and_firmware() {
    let app = App::new();
    assert!(app.port_lines().is_empty());
    let p = app.pipeline_lines("3");
    assert_eq!(texts(&p[1]), " SOURCE: NOT CONNECTED");
    assert_eq!(texts(&p[10]), "   (none detected)");
    assert_eq!(texts(&p[12]), " Last good poll: 3s ago");
    let t = app.tcp_lines(Some("127.0.0.1:1502"), "127.0.0.1", "1502");
    assert_eq!(texts(&t[2]), " ● Connected to 127.0.0.1:1502 (unit 1)");
    let f = app.firmware_lines(None, "None");
    assert_eq!(texts(&f[3]), " Target port : (select in Ports tab)");
    assert_eq!(texts(&f[4]), " Tool        : (no esptool — install espflash or esptool)");
    assert_eq!(app.backups_title(), " Backups (0) ");
}

fn entry(ok: bool, req: &str, resp: &str) -> TraceEntry {
    TraceEntry {
        transport: "RTU",
        fc: "READ COILS (0x01)".to_string(),
        req: req.to_string(),
        resp: resp.to_string(),
        ok,
        err: if ok { None } else { Some("timeout (no response)".to_string()) },
        ms: 7,
    }
}

#[test]
fn bus_view_shows_the_tail() {
    let none = bus_lines(&[], 0, 20, 80, true, true);
    assert_eq!(none.len(), 4);
    assert_eq!(none[0][0].text, " No Modbus traffic yet.");
    let log = vec![entry(true, "01 01 00 00 00 02 BD CB", "01 01 01 01 90 48"), entry(false, "01 01", "")];
    let lines = bus_lines(&log, 0, 20, 80, false, true);
    assert_eq!(texts(&lines[0]), " ▸ READ COILS (0x01)   req 8 B → resp 6 B · 7 ms · CRC ok");
    assert_eq!(texts(&lines[1]), "   → 01 01 00 00 00 02 BD CB");
    assert_eq!(texts(&lines[3]), " ✖ READ COILS (0x01)   req 2 B → timeout (no response) · 7 ms");
    assert_eq!(lines.len(), 5);
    let narrow = bus_lines(&log, 0, 20, 12, false, true);
    assert_eq!(narrow[1][1].text, "01 01…");
    assert_eq!(bus_title(2, 0), " Bus — Modbus frame log (RTU hex + TCP MBAP) (2) (↑↓/wheel) ");
    assert_eq!(bus_title(0, 0), " Bus — Modbus frame log (RTU hex + TCP MBAP) ");
}

#[test]
fn log_and_help_windows() {
    let mut app = App::new();
    for i in 0..10 {
        app.log(if i % 2 == 0 { 1 } else { 3 }, format!("line {}", i));
    }
    let (lines, title) = app.log_lines(4, 100);
    assert_eq!(lines.len(), 4);
    assert_eq!(lines[0][0].text, "line 6");
    assert!(lines[0][0].tone == Tone::Green);
    assert!(lines[1][0].tone == Tone::Red);
    assert_eq!(title, " Log (10) [scrolled 6..10] ");
    let (_, t0) = app.log_lines(20, 0);
    assert_eq!(t0, " Log (10) ");
    assert_eq!(help_window(75, 20, 0), (0, 20));
    assert_eq!(help_window(75, 20, 100), (55, 75));
    assert_eq!(help_window(10, 20, 3), (0, 10));
}

#[test]
fn bus_view_counts_and_cuts_by_bytes() {
    // "é" takes two bytes: the size shown is (bytes + 1) / 3.
    let log = vec![entry(true, "éé ", "01")];
    let lines = bus_lines(&log, 0, 20, 80, false, true);
    assert_eq!(texts(&lines[0]), " ▸ READ COILS (0x01)   req 2 B → resp 1 B · 7 ms · CRC ok");
    // Width 12 leaves 6 columns: the request is cut after 5 bytes, here a
    // character boundary.
    let wide = vec![entry(true, "aéé 01 02", "")];
    assert!(entry_clips_ok(&wide[0], 6));
    let narrow = bus_lines(&wide, 0, 20, 12, false, true);
    assert_eq!(narrow[1][1].text, "aéé…");
    // A cut inside a character is refused, but only for entries on the page.
    let bad = entry(true, "éééé", "");
    assert!(!entry_clips_ok(&bad, 6));
    assert_eq!(bus_window(10, 0, 4, 12), (6, 7, 6));
    assert_eq!(bus_window(10, 1, 4, 12), (2, 3, 6));
    assert_eq!(bus_window(3, 0, 20, 4), (0, 3, 0));
}
