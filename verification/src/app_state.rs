//! State of the terminal front end and everything it decides: tabs, focus,
//! form editing, the log, the sensor list, the emulator it serves, and the
//! outcome of each key press.
//!
//! The shell around it draws the screen, runs the background poller,
//! opens serial ports and runs flash tools; it reports what happened back
//! through the methods here and carries out the effects they return.

use crate::emulator::{
    emu_wf, find_slave, read_or_default, scenario_devices, default_scenario, DataType, DeviceView,
    Emulator, SensorView,
};
use crate::text::{dec, push_char, push_dec, push_str, string_of, str_eq};
use crate::ui::Tab;
use crate::worker::{snapshot_views, DeviceSnapshot, SnapshotView};
use std::collections::VecDeque;
use vstd::prelude::*;

verus! {

/// Lines kept in the log.
pub const LOG_CAP: usize = 300;

/// A log line; `level` 0 is info, 1 ok, 2 warning, 3 error.
pub struct LogLine {
    pub text: String,
    pub level: u8,
}

/// Abstract content of a log line.
pub struct LogView {
    pub level: u8,
    pub text: Seq<char>,
}

impl View for LogLine {
    type V = LogView;

    open spec fn view(&self) -> LogView {
        LogView { level: self.level, text: self.text@ }
    }
}

/// The register editor form: text fields as typed, and the table
/// (0 input registers, 1 holding registers, 2 coils).
pub struct RegisterForm {
    pub slave_id: String,
    pub start: String,
    pub count: String,
    pub value: String,
    pub addr: String,
    pub reg_type: usize,
}

/// Abstract content of the register form.
pub struct RegFormView {
    pub slave_id: Seq<char>,
    pub start: Seq<char>,
    pub count: Seq<char>,
    pub value: Seq<char>,
    pub addr: Seq<char>,
    pub reg_type: usize,
}

impl View for RegisterForm {
    type V = RegFormView;

    open spec fn view(&self) -> RegFormView {
        RegFormView {
            slave_id: self.slave_id@,
            start: self.start@,
            count: self.count@,
            value: self.value@,
            addr: self.addr@,
            reg_type: self.reg_type,
        }
    }
}

/// The register form as it starts: slave 1, ten holding registers from 0,
/// write value 0 at address 0.
pub open spec fn default_reg_form() -> RegFormView {
    RegFormView { slave_id: "1"@, start: "0"@, count: "10"@, value: "0"@, addr: "0"@, reg_type: 1 }
}

impl Default for RegisterForm {
    fn default() -> (r: Self)
        ensures
            r@ == default_reg_form(),
    {
        RegisterForm {
            slave_id: string_of("1"),
            start: string_of("0"),
            count: string_of("10"),
            value: string_of("0"),
            addr: string_of("0"),
            reg_type: 1,
        }
    }
}

/// The sensor factory form: target device index, name, kind, and base,
/// amplitude and period as typed.
pub struct SensorForm {
    pub device_idx: String,
    pub name: String,
    pub kind: DataType,
    pub base: String,
    pub amplitude: String,
    pub period: String,
}

/// Abstract content of the sensor form.
pub struct SensorFormView {
    pub device_idx: Seq<char>,
    pub name: Seq<char>,
    pub kind: DataType,
    pub base: Seq<char>,
    pub amplitude: Seq<char>,
    pub period: Seq<char>,
}

impl View for SensorForm {
    type V = SensorFormView;

    open spec fn view(&self) -> SensorFormView {
        SensorFormView {
            device_idx: self.device_idx@,
            name: self.name@,
            kind: self.kind,
            base: self.base@,
            amplitude: self.amplitude@,
            period: self.period@,
        }
    }
}

/// The sensor form as it starts.
pub open spec fn default_sensor_form() -> SensorFormView {
    SensorFormView {
        device_idx: "0"@,
        name: "New Sensor"@,
        kind: DataType::TemperatureC,
        base: "25.0"@,
        amplitude: "3.0"@,
        period: "8.0"@,
    }
}

impl Default for SensorForm {
    fn default() -> (r: Self)
        ensures
            r@ == default_sensor_form(),
    {
        SensorForm {
            device_idx: string_of("0"),
            name: string_of("New Sensor"),
            kind: DataType::TemperatureC,
            base: string_of("25.0"),
            amplitude: string_of("3.0"),
            period: string_of("8.0"),
        }
    }
}

/// The form field being edited.
#[derive(Debug, Clone, Copy, PartialEq, Eq, Structural)]
pub enum FieldEdit {
    /// Register form field: 0 slave, 1 start, 2 count, 3 address, 4 value.
    Reg(usize),
    /// Sensor form field: 0 device, 1 name, 2 base, 3 amplitude, 4 period.
    Sensor(usize),
}

/// A row of the sensor list: a device header, or a sensor of a device.
#[derive(Debug, Clone, Copy, PartialEq, Eq, Structural)]
pub enum SensorRow {
    Device(usize),
    Sensor(usize, usize),
}

/// A serial port found by the scanner.
pub struct PortInfo {
    pub name: String,
    pub description: String,
    /// Looks like an ESP development board (by USB vendor or name).
    pub is_esp_like: bool,
    /// A Modbus slave answered on it.
    pub has_firmware: bool,
    pub manufacturer: Option<String>,
    pub product: Option<String>,
    pub serial: Option<String>,
}

/// Abstract content of a port entry.
pub struct PortView {
    pub name: Seq<char>,
    pub description: Seq<char>,
    pub is_esp_like: bool,
    pub has_firmware: bool,
    pub manufacturer: Option<Seq<char>>,
    pub product: Option<Seq<char>>,
    pub serial: Option<Seq<char>>,
}

/// The characters of an optional string.
pub open spec fn opt_view(o: Option<String>) -> Option<Seq<char>> {
    match o {
        Some(s) => Some(s@),
        None => None,
    }
}

impl View for PortInfo {
    type V = PortView;

    open spec fn view(&self) -> PortView {
        PortView {
            name: self.name@,
            description: self.description@,
            is_esp_like: self.is_esp_like,
            has_firmware: self.has_firmware,
            manufacturer: opt_view(self.manufacturer),
            product: opt_view(self.product),
            serial: opt_view(self.serial),
        }
    }
}

/// The status shown for a port.
pub open spec fn spec_status_label(esp: bool, fw: bool) -> Seq<char> {
    if esp && fw {
        "ESP32 + FW"@
    } else if esp {
        "ESP32 (no FW)"@
    } else if fw {
        "Modbus"@
    } else {
        "port"@
    }
}

impl PortInfo {
    /// Short status of the port for the port list.
    pub fn status_label(&self) -> (r: &'static str)
        ensures
            r@ == spec_status_label(self.is_esp_like, self.has_firmware),
    {
        if self.is_esp_like && self.has_firmware {
            "ESP32 + FW"
        } else if self.is_esp_like {
            "ESP32 (no FW)"
        } else if self.has_firmware {
            "Modbus"
        } else {
            "port"
        }
    }
}

/// The whole state of the front end.
pub struct App {
    pub tab: Tab,
    pub should_quit: bool,
    pub ports: Vec<PortInfo>,
    pub selected_port: usize,
    /// The in-process emulator (the test server).
    pub emu: Emulator,
    /// What the poller reads: "EMU", a serial port's name, or nothing.
    pub source: Option<String>,
    /// The serial port a master is open on.
    pub serial_port: Option<String>,
    pub serial_baud: u32,
    /// Devices as of the last poll.
    pub snapshot: Vec<DeviceSnapshot>,
    /// Device chosen on the dashboard.
    pub selected_device: usize,
    pub logs: VecDeque<LogLine>,
    pub reg_form: RegisterForm,
    pub sensor_form: SensorForm,
    pub sensor_selected: usize,
    pub last_poll_error: Option<String>,
    pub tick: u64,
    pub status_line: String,
    /// Port chosen for firmware work.
    pub fw_port: Option<String>,
    /// Backup images found, sorted.
    pub backups: Vec<String>,
    pub backup_selected: usize,
    pub editing: Option<FieldEdit>,
    pub reg_focus: usize,
    pub sensor_focus: usize,
    /// Managing the sensor list (navigation and deletion).
    pub sensor_manage: bool,
    /// A background task is running: only navigation keys and quitting act.
    pub busy: bool,
    /// Field of the Modbus TCP target in focus: 0 host, 1 port.
    pub tcp_focus: usize,
}

/// Abstract content of the front end's state.
pub struct AppView {
    pub tab: Tab,
    pub should_quit: bool,
    pub ports: Seq<PortView>,
    pub selected_port: usize,
    pub emu: Seq<DeviceView>,
    pub source: Option<Seq<char>>,
    pub serial_port: Option<Seq<char>>,
    pub serial_baud: u32,
    pub snapshot: Seq<SnapshotView>,
    pub selected_device: usize,
    pub logs: Seq<LogView>,
    pub reg_form: RegFormView,
    pub sensor_form: SensorFormView,
    pub sensor_selected: usize,
    pub last_poll_error: Option<Seq<char>>,
    pub tick: u64,
    pub status_line: Seq<char>,
    pub fw_port: Option<Seq<char>>,
    pub backups: Seq<Seq<char>>,
    pub backup_selected: usize,
    pub editing: Option<FieldEdit>,
    pub reg_focus: usize,
    pub sensor_focus: usize,
    pub sensor_manage: bool,
    pub busy: bool,
    pub tcp_focus: usize,
}

impl View for App {
    type V = AppView;

    open spec fn view(&self) -> AppView {
        AppView {
            tab: self.tab,
            should_quit: self.should_quit,
            ports: self.ports@.map_values(|p: PortInfo| p@),
            selected_port: self.selected_port,
            emu: self.emu@,
            source: opt_view(self.source),
            serial_port: opt_view(self.serial_port),
            serial_baud: self.serial_baud,
            snapshot: snapshot_views(self.snapshot@),
            selected_device: self.selected_device,
            logs: self.logs@.map_values(|l: LogLine| l@),
            reg_form: self.reg_form@,
            sensor_form: self.sensor_form@,
            sensor_selected: self.sensor_selected,
            last_poll_error: opt_view(self.last_poll_error),
            tick: self.tick,
            status_line: self.status_line@,
            fw_port: opt_view(self.fw_port),
            backups: self.backups@.map_values(|b: String| b@),
            backup_selected: self.backup_selected,
            editing: self.editing,
            reg_focus: self.reg_focus,
            sensor_focus: self.sensor_focus,
            sensor_manage: self.sensor_manage,
            busy: self.busy,
            tcp_focus: self.tcp_focus,
        }
    }
}

/// The state the front end starts in: the ready-made emulator scenario,
/// the dashboard, nothing connected, empty log and lists, default forms.
pub open spec fn initial_view() -> AppView {
    AppView {
        tab: Tab::Dashboard,
        should_quit: false,
        ports: Seq::empty(),
        selected_port: 0,
        emu: scenario_devices(),
        source: None,
        serial_port: None,
        serial_baud: 9600,
        snapshot: Seq::empty(),
        selected_device: 0,
        logs: Seq::empty(),
        reg_form: default_reg_form(),
        sensor_form: default_sensor_form(),
        sensor_selected: 0,
        last_poll_error: None,
        tick: 0,
        status_line: Seq::empty(),
        fw_port: None,
        backups: Seq::empty(),
        backup_selected: 0,
        editing: None,
        reg_focus: 0,
        sensor_focus: 0,
        sensor_manage: false,
        busy: false,
        tcp_focus: 0,
    }
}

/// The log after appending a line, the oldest line dropped past the cap.
pub open spec fn logged(logs: Seq<LogView>, level: u8, text: Seq<char>) -> Seq<LogView> {
    let l = logs.push(LogView { level, text });
    if l.len() > LOG_CAP {
        l.drop_first()
    } else {
        l
    }
}

/// The state after appending a log line.
pub open spec fn with_log(v: AppView, level: u8, text: Seq<char>) -> AppView {
    AppView { logs: logged(v.logs, level, text), ..v }
}

/// Whether the emulator is what is being polled.
pub open spec fn spec_is_emu(v: AppView) -> bool {
    v.source == Some("EMU"@)
}

/// The state after closing the serial side: polling stops unless it is the
/// emulator that is polled, and no serial port stays open.
pub open spec fn spec_disconnect_serial(v: AppView) -> AppView {
    AppView {
        source: if v.source is Some && !spec_is_emu(v) {
            None
        } else {
            v.source
        },
        serial_port: None,
        ..v
    }
}

/// The state after starting the test server.
pub open spec fn spec_connect_emulator(v: AppView) -> AppView {
    let d = spec_disconnect_serial(v);
    AppView {
        source: Some("EMU"@),
        status_line: "Connected: EMULATOR"@,
        ..with_log(d, 1, "Started test server (in-process emulator)"@)
    }
}

/// The state after the test-server key: stops it when it is polled,
/// starts it otherwise.
pub open spec fn spec_toggle_emulator(v: AppView) -> AppView {
    if spec_is_emu(v) {
        AppView { source: None, status_line: "Disconnected"@, ..with_log(v, 2, "Stopped test server"@) }
    } else {
        spec_connect_emulator(v)
    }
}

/// The dashboard's device, kept inside the snapshot.
pub open spec fn spec_selected_device(v: AppView) -> usize {
    if v.snapshot.len() == 0 {
        0
    } else if v.selected_device < v.snapshot.len() - 1 {
        v.selected_device
    } else {
        (v.snapshot.len() - 1) as usize
    }
}

/// `(i + d) mod n` for a focus that wraps around `n` entries.
pub open spec fn wrap(i: int, d: int, n: int) -> usize {
    ((i + d) % n) as usize
}

/// The state after moving the focus of the current tab's form by `dir`
/// rows; both forms have five rows and the focus wraps.
pub open spec fn spec_move_focus(v: AppView, dir: i8) -> AppView {
    if v.tab == Tab::Registers {
        AppView { reg_focus: wrap(v.reg_focus as int, dir as int, 5), ..v }
    } else if v.tab == Tab::Sensors {
        AppView { sensor_focus: wrap(v.sensor_focus as int, dir as int, 5), ..v }
    } else {
        v
    }
}

/// The field that editing starts on: the focused row of the register form
/// on the Registers tab, of the sensor form on any other tab.
pub open spec fn spec_begin_edit(v: AppView) -> AppView {
    AppView {
        editing: Some(
            if v.tab == Tab::Registers {
                FieldEdit::Reg(v.reg_focus)
            } else {
                FieldEdit::Sensor(v.sensor_focus)
            },
        ),
        ..v
    }
}

/// The register form with field `i` replaced (4 and above: the value).
pub open spec fn reg_form_with(f: RegFormView, i: usize, s: Seq<char>) -> RegFormView {
    if i == 0 {
        RegFormView { slave_id: s, ..f }
    } else if i == 1 {
        RegFormView { start: s, ..f }
    } else if i == 2 {
        RegFormView { count: s, ..f }
    } else if i == 3 {
        RegFormView { addr: s, ..f }
    } else {
        RegFormView { value: s, ..f }
    }
}

/// Field `i` of the register form.
pub open spec fn reg_form_field(f: RegFormView, i: usize) -> Seq<char> {
    if i == 0 {
        f.slave_id
    } else if i == 1 {
        f.start
    } else if i == 2 {
        f.count
    } else if i == 3 {
        f.addr
    } else {
        f.value
    }
}

/// The sensor form with field `i` replaced (4 and above: the period).
pub open spec fn sensor_form_with(f: SensorFormView, i: usize, s: Seq<char>) -> SensorFormView {
    if i == 0 {
        SensorFormView { device_idx: s, ..f }
    } else if i == 1 {
        SensorFormView { name: s, ..f }
    } else if i == 2 {
        SensorFormView { base: s, ..f }
    } else if i == 3 {
        SensorFormView { amplitude: s, ..f }
    } else {
        SensorFormView { period: s, ..f }
    }
}

/// Field `i` of the sensor form.
pub open spec fn sensor_form_field(f: SensorFormView, i: usize) -> Seq<char> {
    if i == 0 {
        f.device_idx
    } else if i == 1 {
        f.name
    } else if i == 2 {
        f.base
    } else if i == 3 {
        f.amplitude
    } else {
        f.period
    }
}

/// The state after typing `c` into the edited field.
pub open spec fn spec_edit_char(v: AppView, c: char) -> AppView {
    match v.editing {
        Some(FieldEdit::Reg(i)) => AppView {
            reg_form: reg_form_with(v.reg_form, i, reg_form_field(v.reg_form, i).push(c)),
            ..v
        },
        Some(FieldEdit::Sensor(i)) => AppView {
            sensor_form: sensor_form_with(v.sensor_form, i, sensor_form_field(v.sensor_form, i).push(c)),
            ..v
        },
        None => v,
    }
}

/// `s` without its last character, when it has one.
pub open spec fn popped(s: Seq<char>) -> Seq<char> {
    if s.len() > 0 {
        s.drop_last()
    } else {
        s
    }
}

/// The state after a backspace in the edited field.
pub open spec fn spec_edit_backspace(v: AppView) -> AppView {
    match v.editing {
        Some(FieldEdit::Reg(i)) => AppView {
            reg_form: reg_form_with(v.reg_form, i, popped(reg_form_field(v.reg_form, i))),
            ..v
        },
        Some(FieldEdit::Sensor(i)) => AppView {
            sensor_form: sensor_form_with(v.sensor_form, i, popped(sensor_form_field(v.sensor_form, i))),
            ..v
        },
        None => v,
    }
}

/// The rows of device `di`: its header, then one row per sensor.
pub open spec fn device_list_rows(di: nat, n: nat) -> Seq<SensorRow> {
    seq![SensorRow::Device(di as usize)] + Seq::new(n, |si: int| SensorRow::Sensor(di as usize, si as usize))
}

/// The sensor list of the first `k` devices, in drawing order.
pub open spec fn rows_of(devs: Seq<DeviceView>, k: nat) -> Seq<SensorRow>
    decreases k,
{
    if k == 0 {
        Seq::empty()
    } else {
        rows_of(devs, (k - 1) as nat) + device_list_rows((k - 1) as nat, devs[k - 1].sensors.len())
    }
}

/// The sensor list of all devices.
pub open spec fn sensor_rows_of(devs: Seq<DeviceView>) -> Seq<SensorRow> {
    rows_of(devs, devs.len())
}

/// Index of the first sensor row from `i` on; the number of rows when none.
pub open spec fn first_sensor_row_from(rows: Seq<SensorRow>, i: int) -> int
    decreases rows.len() - i,
{
    if i < 0 || i >= rows.len() {
        rows.len() as int
    } else if rows[i] is Sensor {
        i
    } else {
        first_sensor_row_from(rows, i + 1)
    }
}

/// The state after switching list management on or off; switching it on
/// while no field is edited puts the cursor on the first sensor row (row 0
/// when there is none), so that entering never lands on a device by
/// accident.
pub open spec fn spec_toggle_sensor_manage(v: AppView) -> AppView {
    let on = !v.sensor_manage;
    let rows = sensor_rows_of(v.emu);
    let first = first_sensor_row_from(rows, 0);
    AppView {
        sensor_manage: on,
        sensor_selected: if on && v.editing is None {
            if first < rows.len() {
                first as usize
            } else {
                0
            }
        } else {
            v.sensor_selected
        },
        ..v
    }
}

/// The cursor after a step of `dir` through `n` list rows: wrapping over
/// the ends, and entering from the near end when it was off the list.
pub open spec fn nav_target(sel: usize, dir: i8, n: nat) -> usize {
    if n == 0 {
        0
    } else {
        let cur: int = if sel < n {
            sel as int
        } else if dir > 0 {
            -1
        } else {
            n as int
        };
        ((cur + dir) % (n as int)) as usize
    }
}

/// The state after a step of `dir` through the sensor list.
pub open spec fn spec_sensor_nav(v: AppView, dir: i8) -> AppView {
    AppView { sensor_selected: nav_target(v.sensor_selected, dir, sensor_rows_of(v.emu).len()), ..v }
}

/// The well-formedness the front end keeps: its emulator's sensors are
/// well formed.
pub open spec fn app_wf(v: AppView) -> bool {
    &&& emu_wf(v.emu)
    &&& v.reg_focus < 5
    &&& v.sensor_focus < 5
    &&& v.reg_form.reg_type <= 2
}

impl App {
    /// The front end as it starts (see `initial_view`). The shell starts
    /// the port scanner and fills in the backups it finds.
    pub fn new() -> (r: App)
        ensures
            r@ == initial_view(),
            app_wf(r@),
    {
        let r = App {
            tab: Tab::Dashboard,
            should_quit: false,
            ports: Vec::new(),
            selected_port: 0,
            emu: default_scenario(),
            source: None,
            serial_port: None,
            serial_baud: 9600,
            snapshot: Vec::new(),
            selected_device: 0,
            logs: VecDeque::new(),
            reg_form: RegisterForm::default(),
            sensor_form: SensorForm::default(),
            sensor_selected: 0,
            last_poll_error: None,
            tick: 0,
            status_line: String::new(),
            fw_port: None,
            backups: Vec::new(),
            backup_selected: 0,
            editing: None,
            reg_focus: 0,
            sensor_focus: 0,
            sensor_manage: false,
            busy: false,
            tcp_focus: 0,
        };
        proof {
            assert(r@.ports =~= Seq::<PortView>::empty());
            assert(r@.snapshot =~= Seq::<SnapshotView>::empty());
            assert(r@.logs =~= Seq::<LogView>::empty());
            assert(r@.backups =~= Seq::<Seq<char>>::empty());
            assert(r@ =~= initial_view());
        }
        r
    }

    /// Appends a log line, dropping the oldest past `LOG_CAP` lines.
    pub fn log(&mut self, level: u8, text: String)
        ensures
            final(self)@ == with_log(old(self)@, level, text@),
    {
        let ghost t = text@;
        self.logs.push_back(LogLine { text, level });
        if self.logs.len() > LOG_CAP {
            self.logs.pop_front();
        }
        proof {
            let l = old(self)@.logs.push(LogView { level, text: t });
            if l.len() > LOG_CAP {
                assert(final(self)@.logs =~= l.drop_first());
            } else {
                assert(final(self)@.logs =~= l);
            }
            assert(final(self)@ =~= with_log(old(self)@, level, t));
        }
    }

    /// Appends a literal log line.
    pub fn log_str(&mut self, level: u8, text: &str)
        ensures
            final(self)@ == with_log(old(self)@, level, text@),
    {
        self.log(level, string_of(text));
    }

    /// Whether the emulator is what is being polled.
    pub fn is_emu(&self) -> (r: bool)
        ensures
            r == spec_is_emu(self@),
    {
        match &self.source {
            Some(s) => str_eq(s.as_str(), "EMU"),
            None => false,
        }
    }

    /// Whether anything is being polled.
    pub fn is_connected(&self) -> (r: bool)
        ensures
            r == self@.source is Some,
    {
        self.source.is_some()
    }

    /// Closes the serial side (see `spec_disconnect_serial`); the emulator,
    /// when polled, stays.
    pub fn disconnect_serial(&mut self)
        ensures
            final(self)@ == spec_disconnect_serial(old(self)@),
    {
        if self.source.is_some() && !self.is_emu() {
            self.source = None;
        }
        self.serial_port = None;
        proof {
            assert(final(self)@ =~= spec_disconnect_serial(old(self)@));
        }
    }

    /// Starts the test server: closes the serial side and polls the
    /// emulator.
    pub fn connect_emulator(&mut self)
        ensures
            final(self)@ == spec_connect_emulator(old(self)@),
    {
        self.disconnect_serial();
        self.log_str(1, "Started test server (in-process emulator)");
        self.source = Some(string_of("EMU"));
        self.status_line = string_of("Connected: EMULATOR");
        proof {
            assert(final(self)@ =~= spec_connect_emulator(old(self)@));
        }
    }

    /// Starts the test server, or stops it when it is being polled.
    pub fn toggle_emulator(&mut self)
        ensures
            final(self)@ == spec_toggle_emulator(old(self)@),
    {
        if self.is_emu() {
            self.source = None;
            self.log_str(2, "Stopped test server");
            self.status_line = string_of("Disconnected");
            proof {
                assert(final(self)@ =~= spec_toggle_emulator(old(self)@));
            }
        } else {
            self.connect_emulator();
        }
    }

    /// The dashboard's device, kept inside the snapshot.
    pub fn selected_device(&self) -> (r: usize)
        ensures
            r == spec_selected_device(self@),
    {
        if self.snapshot.len() == 0 {
            0
        } else if self.selected_device < self.snapshot.len() - 1 {
            self.selected_device
        } else {
            self.snapshot.len() - 1
        }
    }

    /// Selects the next device of the dashboard (stopping at the last).
    pub fn select_dev_next(&mut self)
        ensures
            final(self)@ == (if old(self)@.snapshot.len() == 0 {
                old(self)@
            } else {
                AppView {
                    selected_device: if old(self)@.selected_device + 1 < old(self)@.snapshot.len() - 1 {
                        (old(self)@.selected_device + 1) as usize
                    } else {
                        (old(self)@.snapshot.len() - 1) as usize
                    },
                    ..old(self)@
                }
            }),
    {
        let n = self.snapshot.len();
        if n > 0 {
            if self.selected_device < n - 1 && self.selected_device + 1 < n - 1 {
                self.selected_device = self.selected_device + 1;
            } else {
                self.selected_device = n - 1;
            }
        }
        proof {
            assert(final(self)@ =~= (if old(self)@.snapshot.len() == 0 {
                old(self)@
            } else {
                AppView {
                    selected_device: if old(self)@.selected_device + 1 < old(self)@.snapshot.len() - 1 {
                        (old(self)@.selected_device + 1) as usize
                    } else {
                        (old(self)@.snapshot.len() - 1) as usize
                    },
                    ..old(self)@
                }
            }));
        }
    }

    /// Selects the previous device of the dashboard (stopping at the first).
    pub fn select_dev_prev(&mut self)
        ensures
            final(self)@ == (if old(self)@.snapshot.len() == 0 {
                old(self)@
            } else {
                AppView {
                    selected_device: if old(self)@.selected_device > 0 {
                        (old(self)@.selected_device - 1) as usize
                    } else {
                        0
                    },
                    ..old(self)@
                }
            }),
    {
        if self.snapshot.len() > 0 {
            if self.selected_device > 0 {
                self.selected_device = self.selected_device - 1;
            }
        }
        proof {
            assert(final(self)@ =~= (if old(self)@.snapshot.len() == 0 {
                old(self)@
            } else {
                AppView {
                    selected_device: if old(self)@.selected_device > 0 {
                        (old(self)@.selected_device - 1) as usize
                    } else {
                        0
                    },
                    ..old(self)@
                }
            }));
        }
    }

    /// Moves the focus of the current tab's form (see `spec_move_focus`).
    pub fn move_focus(&mut self, dir: i8)
        requires
            old(self).reg_focus < 5,
            old(self).sensor_focus < 5,
        ensures
            final(self)@ == spec_move_focus(old(self)@, dir),
            final(self).reg_focus < 5,
            final(self).sensor_focus < 5,
    {
        if self.tab == Tab::Registers {
            self.reg_focus = wrap_focus(self.reg_focus, dir);
        } else if self.tab == Tab::Sensors {
            self.sensor_focus = wrap_focus(self.sensor_focus, dir);
        }
        proof {
            assert(final(self)@ =~= spec_move_focus(old(self)@, dir));
        }
    }

    /// Starts editing the focused form field.
    pub fn begin_edit_focused(&mut self)
        ensures
            final(self)@ == spec_begin_edit(old(self)@),
    {
        self.editing = Some(
            if self.tab == Tab::Registers {
                FieldEdit::Reg(self.reg_focus)
            } else {
                FieldEdit::Sensor(self.sensor_focus)
            },
        );
        proof {
            assert(final(self)@ =~= spec_begin_edit(old(self)@));
        }
    }

    /// Stops editing.
    pub fn cancel_edit(&mut self)
        ensures
            final(self)@ == (AppView { editing: None, ..old(self)@ }),
    {
        self.editing = None;
        proof {
            assert(final(self)@ =~= AppView { editing: None, ..old(self)@ });
        }
    }

    /// Whether a form field is being edited.
    pub fn is_editing(&self) -> (r: bool)
        ensures
            r == self@.editing is Some,
    {
        self.editing.is_some()
    }

    /// Types `c` into the edited field (nothing when none is edited).
    pub fn edit_char(&mut self, c: char)
        ensures
            final(self)@ == spec_edit_char(old(self)@, c),
    {
        match self.editing {
            Some(FieldEdit::Reg(i)) => {
                let f = reg_field_mut(&mut self.reg_form, i);
                push_char(f, c);
            },
            Some(FieldEdit::Sensor(i)) => {
                let f = sensor_field_mut(&mut self.sensor_form, i);
                push_char(f, c);
            },
            None => {},
        }
        proof {
            assert(final(self)@ =~= spec_edit_char(old(self)@, c));
        }
    }

    /// Deletes the last character of the edited field.
    pub fn edit_backspace(&mut self)
        ensures
            final(self)@ == spec_edit_backspace(old(self)@),
    {
        match self.editing {
            Some(FieldEdit::Reg(i)) => {
                let f = reg_field_mut(&mut self.reg_form, i);
                let shorter = crate::text::without_last(f.as_str());
                *f = shorter;
            },
            Some(FieldEdit::Sensor(i)) => {
                let f = sensor_field_mut(&mut self.sensor_form, i);
                let shorter = crate::text::without_last(f.as_str());
                *f = shorter;
            },
            None => {},
        }
        proof {
            assert(final(self)@ =~= spec_edit_backspace(old(self)@));
        }
    }
}

fn wrap_focus(focus: usize, dir: i8) -> (r: usize)
    requires
        focus < 5,
    ensures
        r == wrap(focus as int, dir as int, 5),
        r < 5,
{
    let shifted: i32 = dir as i32 + 130;
    let t: u32 = focus as u32 + shifted as u32;
    let r: u32 = t % 5;
    proof {
        assert((focus as int + dir as int) % 5 == r) by (nonlinear_arith)
            requires
                t == focus as int + dir as int + 130,
                r == t % 5,
        {
        }
    }
    r as usize
}

/// Field `i` of the register form, to type into.
fn reg_field_mut(f: &mut RegisterForm, i: usize) -> (r: &mut String)
    ensures
        *r == if i == 0 {
            old(f).slave_id
        } else if i == 1 {
            old(f).start
        } else if i == 2 {
            old(f).count
        } else if i == 3 {
            old(f).addr
        } else {
            old(f).value
        },
        final(f)@ == reg_form_with(old(f)@, i, final(r)@),
{
    if i == 0 {
        &mut f.slave_id
    } else if i == 1 {
        &mut f.start
    } else if i == 2 {
        &mut f.count
    } else if i == 3 {
        &mut f.addr
    } else {
        &mut f.value
    }
}

/// Field `i` of the sensor form, to type into.
fn sensor_field_mut(f: &mut SensorForm, i: usize) -> (r: &mut String)
    ensures
        *r == if i == 0 {
            old(f).device_idx
        } else if i == 1 {
            old(f).name
        } else if i == 2 {
            old(f).base
        } else if i == 3 {
            old(f).amplitude
        } else {
            old(f).period
        },
        final(f)@ == sensor_form_with(old(f)@, i, final(r)@),
{
    if i == 0 {
        &mut f.device_idx
    } else if i == 1 {
        &mut f.name
    } else if i == 2 {
        &mut f.base
    } else if i == 3 {
        &mut f.amplitude
    } else {
        &mut f.period
    }
}

/// Every row of the sensor list names an existing device, and a sensor row
/// an existing sensor of it.
pub proof fn lemma_rows_valid(devs: Seq<DeviceView>, k: nat, j: int)
    requires
        k <= devs.len(),
        0 <= j < rows_of(devs, k).len(),
        rows_of(devs, k).len() <= usize::MAX,
    ensures
        match rows_of(devs, k)[j] {
            SensorRow::Device(di) => di < k,
            SensorRow::Sensor(di, si) => di < k && si < devs[di as int].sensors.len(),
        },
    decreases k,
{
    if k > 0 {
        let prev = rows_of(devs, (k - 1) as nat);
        let seg = device_list_rows((k - 1) as nat, devs[k - 1].sensors.len());
        assert(rows_of(devs, k) == prev + seg);
        lemma_rows_len(devs, (k - 1) as nat);
        if j < prev.len() {
            lemma_rows_valid(devs, (k - 1) as nat, j);
            assert(rows_of(devs, k)[j] == prev[j]);
        } else {
            let o = j - prev.len();
            assert(rows_of(devs, k)[j] == seg[o]);
            if o == 0 {
                assert(seg[o] == SensorRow::Device((k - 1) as usize));
            } else {
                assert(seg[o] == SensorRow::Sensor((k - 1) as usize, (o - 1) as usize));
            }
        }
    }
}

/// The number of rows of the first `k` devices.
pub proof fn lemma_rows_len(devs: Seq<DeviceView>, k: nat)
    requires
        k <= devs.len(),
    ensures
        rows_of(devs, k).len() >= k,
    decreases k,
{
    if k > 0 {
        lemma_rows_len(devs, (k - 1) as nat);
    }
}

fn nav_step(sel: usize, dir: i8, n: usize) -> (r: usize)
    ensures
        r == nav_target(sel, dir, n as nat),
{
    if n == 0 {
        return 0;
    }
    let nn: u128 = n as u128;
    // one more than the cursor's position, which is -1 ..= n
    let cpo: u128 = if sel < n {
        sel as u128 + 1
    } else if dir > 0 {
        0
    } else {
        nn + 1
    };
    let r: u128 = if dir >= 0 {
        let a: u128 = cpo + dir as u128;
        if a >= 1 {
            (a - 1) % nn
        } else {
            // cursor -1 and no movement
            nn - 1
        }
    } else {
        let b: u128 = (-(dir as i16)) as u128 + 1;
        if cpo >= b {
            (cpo - b) % nn
        } else {
            let m: u128 = (b - cpo) % nn;
            if m == 0 {
                0
            } else {
                nn - m
            }
        }
    };
    proof {
        let ni = n as int;
        let x: int = cpo as int - 1 + dir as int;
        assert(nav_target(sel, dir, n as nat) == (x % ni) as usize);
        if x < 0 {
            let neg = -x;
            assert(x % ni == (if neg % ni == 0 { 0 } else { ni - neg % ni })) by (nonlinear_arith)
                requires
                    ni > 0,
                    neg > 0,
                    x == -neg,
            {
                let q = neg / ni;
                let m = neg % ni;
                assert(neg == q * ni + m);
                if m == 0 {
                    assert(x == (-q) * ni);
                } else {
                    assert(x == (-q - 1) * ni + (ni - m));
                }
            }
        }
    }
    r as usize
}

fn row_is_sensor(r: SensorRow) -> (b: bool)
    ensures
        b == r is Sensor,
{
    match r {
        SensorRow::Sensor(_, _) => true,
        SensorRow::Device(_) => false,
    }
}

/// The highest slave address among the devices, 0 when there are none.
pub open spec fn max_slave(devs: Seq<DeviceView>) -> u8
    decreases devs.len(),
{
    if devs.len() == 0 {
        0
    } else {
        let m = max_slave(devs.drop_last());
        if devs.last().slave_id > m {
            devs.last().slave_id
        } else {
            m
        }
    }
}

/// How many devices have a name starting with "Device ".
pub open spec fn auto_named(devs: Seq<DeviceView>) -> nat
    decreases devs.len(),
{
    if devs.len() == 0 {
        0
    } else {
        auto_named(devs.drop_last()) + if devs.last().name.len() >= 7 && devs.last().name.take(7)
            == "Device "@ {
            1nat
        } else {
            0nat
        }
    }
}

/// The device a new-device request appends: the next free slave address
/// (one above the highest), named "Device N" with N one more than the
/// devices already named that way.
pub open spec fn new_device_view(devs: Seq<DeviceView>) -> DeviceView {
    DeviceView {
        slave_id: (max_slave(devs) + 1) as u8,
        name: "Device "@ + dec(auto_named(devs) + 1),
        description: "user-defined device"@,
        input: Map::empty(),
        holding: Map::empty(),
        coils: Map::empty(),
        discrete: Map::empty(),
        sensors: Seq::empty(),
    }
}

/// The state after adding a device (see `new_device_view`).
pub open spec fn spec_add_device(v: AppView) -> AppView {
    let d = new_device_view(v.emu);
    with_log(
        AppView { emu: v.emu.push(d), ..v },
        1,
        "Added device '"@ + d.name + "' (slave "@ + dec(d.slave_id as nat) + ")"@,
    )
}

/// The state after deleting what the sensor-list cursor is on.
pub open spec fn spec_remove_selected(v: AppView) -> AppView {
    let rows = sensor_rows_of(v.emu);
    if v.sensor_selected >= rows.len() {
        with_log(v, 2, "Nothing under cursor"@)
    } else {
        match rows[v.sensor_selected as int] {
            SensorRow::Device(di) => if v.emu.len() <= 1 {
                with_log(v, 3, "Refusing to delete the last device"@)
            } else {
                settle_cursor(
                    with_log(
                        AppView { emu: v.emu.remove(di as int), ..v },
                        1,
                        "Deleted device '"@ + v.emu[di as int].name + "'"@,
                    ),
                )
            },
            SensorRow::Sensor(di, si) => settle_cursor(
                with_log(
                    AppView {
                        emu: v.emu.update(
                            di as int,
                            DeviceView { sensors: v.emu[di as int].sensors.remove(si as int), ..v.emu[di as int] },
                        ),
                        ..v
                    },
                    1,
                    "Deleted sensor on device "@ + dec(di as nat + 1),
                ),
            ),
        }
    }
}

/// After a deletion: the cursor is kept inside the list, and moved on to
/// the next row when it rests on a device header.
pub open spec fn settle_cursor(v: AppView) -> AppView {
    let rows = sensor_rows_of(v.emu);
    if rows.len() == 0 {
        AppView { sensor_selected: 0, ..v }
    } else {
        let sel: usize = if v.sensor_selected < rows.len() - 1 {
            v.sensor_selected
        } else {
            (rows.len() - 1) as usize
        };
        if rows[sel as int] is Device {
            AppView { sensor_selected: nav_target(sel, 1, rows.len()), ..v }
        } else {
            AppView { sensor_selected: sel, ..v }
        }
    }
}

impl App {
    /// The rows of the sensor list: each device's header, then its sensors.
    pub fn sensor_rows(&self) -> (r: Vec<SensorRow>)
        ensures
            r@ == sensor_rows_of(self@.emu),
    {
        let devs = self.emu.devices();
        let mut rows: Vec<SensorRow> = Vec::new();
        let mut di: usize = 0;
        while di < devs.len()
            invariant
                di <= devs@.len(),
                devs@.map_values(|d: crate::emulator::EmuDevice| d@) == self@.emu,
                rows@ == rows_of(self@.emu, di as nat),
            decreases devs@.len() - di,
        {
            proof {
                assert(devs@[di as int]@ == self@.emu[di as int]);
            }
            let ghost before = rows@;
            rows.push(SensorRow::Device(di));
            let n = devs[di].sensors.len();
            let mut si: usize = 0;
            while si < n
                invariant
                    si <= n,
                    rows@ == before + seq![SensorRow::Device(di)] + Seq::new(
                        si as nat,
                        |k: int| SensorRow::Sensor(di, k as usize),
                    ),
                decreases n - si,
            {
                rows.push(SensorRow::Sensor(di, si));
                si = si + 1;
                proof {
                    assert(rows@ =~= before + seq![SensorRow::Device(di)] + Seq::new(
                        si as nat,
                        |k: int| SensorRow::Sensor(di, k as usize),
                    ));
                }
            }
            proof {
                assert(rows@ =~= rows_of(self@.emu, (di + 1) as nat));
            }
            di = di + 1;
        }
        rows
    }

    /// Switches list management on or off (see `spec_toggle_sensor_manage`).
    pub fn toggle_sensor_manage(&mut self)
        ensures
            final(self)@ == spec_toggle_sensor_manage(old(self)@),
    {
        self.sensor_manage = !self.sensor_manage;
        if self.sensor_manage && self.editing.is_none() {
            let rows = self.sensor_rows();
            let mut i: usize = 0;
            while i < rows.len() && !row_is_sensor(rows[i])
                invariant
                    i <= rows@.len(),
                    first_sensor_row_from(rows@, 0) == first_sensor_row_from(rows@, i as int),
                decreases rows@.len() - i,
            {
                i = i + 1;
            }
            self.sensor_selected = if i < rows.len() {
                i
            } else {
                0
            };
        }
        proof {
            assert(final(self)@ =~= spec_toggle_sensor_manage(old(self)@));
        }
    }

    /// Moves the sensor-list cursor by `dir` rows (see `nav_target`).
    pub fn sensor_nav(&mut self, dir: i8)
        ensures
            final(self)@ == spec_sensor_nav(old(self)@, dir),
    {
        let rows = self.sensor_rows();
        self.sensor_selected = nav_step(self.sensor_selected, dir, rows.len());
        proof {
            assert(final(self)@ =~= spec_sensor_nav(old(self)@, dir));
        }
    }

    /// Appends a new device (see `new_device_view`). Requires a free slave
    /// address above the highest one in use.
    pub fn add_device(&mut self)
        requires
            max_slave(old(self)@.emu) < 255,
            old(self)@.emu.len() < usize::MAX,
            app_wf(old(self)@),
        ensures
            final(self)@ == spec_add_device(old(self)@),
            app_wf(final(self)@),
    {
        let devs = self.emu.devices();
        let mut max: u8 = 0;
        let mut named: usize = 0;
        let mut i: usize = 0;
        while i < devs.len()
            invariant
                i <= devs@.len(),
                devs@.len() < usize::MAX,
                devs@.map_values(|d: crate::emulator::EmuDevice| d@) == self@.emu,
                max == max_slave(self@.emu.take(i as int)),
                named == auto_named(self@.emu.take(i as int)),
                named <= i,
            decreases devs@.len() - i,
        {
            proof {
                assert(devs@[i as int]@ == self@.emu[i as int]);
                assert(self@.emu.take(i + 1).drop_last() =~= self@.emu.take(i as int));
                reveal_strlit("Device ");
            }
            if devs[i].slave_id > max {
                max = devs[i].slave_id;
            }
            if crate::text::starts_with(devs[i].name.as_str(), "Device ") {
                named = named + 1;
            }
            i = i + 1;
        }
        proof {
            assert(self@.emu.take(i as int) =~= self@.emu);
            reveal_strlit("Device ");
        }
        let slave: u8 = max + 1;
        let mut name = string_of("Device ");
        push_dec(&mut name, (named + 1) as u64);
        let ghost old_emu = self@.emu;
        self.emu.add_device(slave, name.as_str(), "user-defined device");
        let mut msg = string_of("Added device '");
        push_str(&mut msg, name.as_str());
        push_str(&mut msg, "' (slave ");
        push_dec(&mut msg, slave as u64);
        push_str(&mut msg, ")");
        proof {
            assert(self@.emu =~= old_emu.push(new_device_view(old_emu)));
            assert forall|j: int| 0 <= j < self@.emu.len() implies crate::emulator::sensors_wf(
                #[trigger] self@.emu[j].sensors,
            ) by {
                if j < old_emu.len() {
                    assert(self@.emu[j] == old_emu[j]);
                }
            }
        }
        self.log(1, msg);
        proof {
            assert(final(self)@ =~= spec_add_device(old(self)@));
        }
    }

    /// Deletes what the sensor-list cursor is on: a sensor, or a whole
    /// device with its sensors; the last device is never deleted (see
    /// `spec_remove_selected`).
    pub fn remove_selected(&mut self)
        requires
            app_wf(old(self)@),
        ensures
            final(self)@ == spec_remove_selected(old(self)@),
            app_wf(final(self)@),
    {
        let rows = self.sensor_rows();
        if self.sensor_selected >= rows.len() {
            self.log_str(2, "Nothing under cursor");
            return;
        }
        let row = rows[self.sensor_selected];
        proof {
            lemma_rows_valid(self@.emu, self@.emu.len(), self.sensor_selected as int);
            lemma_rows_len(self@.emu, self@.emu.len());
        }
        match row {
            SensorRow::Device(di) => {
                if self.emu.devices().len() <= 1 {
                    self.log_str(3, "Refusing to delete the last device");
                    return;
                }
                let mut msg = string_of("Deleted device '");
                let devs = self.emu.devices();
                proof {
                    assert(devs@[di as int]@ == self@.emu[di as int]);
                }
                push_str(&mut msg, devs[di].name.as_str());
                push_str(&mut msg, "'");
                let ghost e0 = self@.emu;
                self.emu.remove_device(di);
                proof {
                    assert forall|j: int| 0 <= j < self@.emu.len() implies crate::emulator::sensors_wf(
                        #[trigger] self@.emu[j].sensors,
                    ) by {
                        if j < di {
                            assert(self@.emu[j] == e0[j]);
                        } else {
                            assert(self@.emu[j] == e0[j + 1]);
                        }
                    }
                }
                self.log(1, msg);
            },
            SensorRow::Sensor(di, si) => {
                let ghost e0 = self@.emu;
                let _ = self.emu.remove_sensor(di, si);
                proof {
                    assert forall|j: int| 0 <= j < self@.emu.len() implies crate::emulator::sensors_wf(
                        #[trigger] self@.emu[j].sensors,
                    ) by {
                        if j == di {
                            let s2 = self@.emu[j].sensors;
                            assert forall|k: int| 0 <= k < s2.len() implies #[trigger] s2[k].input_reg < 0xFFFF by {
                                if k < si {
                                    assert(s2[k] == e0[j].sensors[k]);
                                } else {
                                    assert(s2[k] == e0[j].sensors[k + 1]);
                                }
                            }
                        }
                    }
                }
                let mut msg = string_of("Deleted sensor on device ");
                push_dec(&mut msg, (di + 1) as u64);
                self.log(1, msg);
            },
        }
        self.settle_cursor();
        proof {
            assert(final(self)@ =~= spec_remove_selected(old(self)@));
        }
    }

    fn settle_cursor(&mut self)
        ensures
            final(self)@ == settle_cursor(old(self)@),
    {
        let after = self.sensor_rows();
        if after.len() == 0 {
            self.sensor_selected = 0;
            proof {
                assert(final(self)@ =~= settle_cursor(old(self)@));
            }
            return;
        }
        if self.sensor_selected >= after.len() - 1 {
            self.sensor_selected = after.len() - 1;
        }
        match after[self.sensor_selected] {
            SensorRow::Device(_) => {
                self.sensor_selected = nav_step(self.sensor_selected, 1, after.len());
            },
            SensorRow::Sensor(_, _) => {},
        }
        proof {
            assert(final(self)@ =~= settle_cursor(old(self)@));
        }
    }
}

/// Work on a serial master that the shell carries out for a key press.
#[derive(Debug, Clone, Copy, PartialEq, Eq, Structural)]
pub enum SerialOp {
    /// Read `count` values from `start`: 0 input registers, 1 holding
    /// registers, 2 coils.
    ReadRegisters { reg_type: usize, start: u16, count: u16 },
    /// Write `value` at `addr`: 1 a holding register, 2 a coil (on when
    /// `value` is not 0).
    WriteRegister { reg_type: usize, addr: u16, value: u16 },
    /// Read coil `coil` and write its opposite.
    ToggleCoil { coil: u16 },
}

/// A form field read as `from_str` of an unsigned type up to `max` would,
/// `dflt` when it does not parse.
pub open spec fn parsed_or(s: Seq<char>, max: nat, dflt: nat) -> nat {
    match crate::text::spec_parse_uint(s, max) {
        Some(n) => n,
        None => dflt,
    }
}

/// The slave address of the register form (1 when it does not parse).
pub open spec fn form_slave(f: RegFormView) -> u8 {
    parsed_or(f.slave_id, 255, 1) as u8
}

/// The start address of the register form (0 when it does not parse).
pub open spec fn form_start(f: RegFormView) -> u16 {
    parsed_or(f.start, 65535, 0) as u16
}

/// The count of the register form: 10 when it does not parse, at most 125.
pub open spec fn form_count(f: RegFormView) -> u16 {
    let c = parsed_or(f.count, 65535, 10);
    (if c > 125 {
        125
    } else {
        c
    }) as u16
}

/// The write address of the register form (0 when it does not parse).
pub open spec fn form_addr(f: RegFormView) -> u16 {
    parsed_or(f.addr, 65535, 0) as u16
}

/// The write value of the register form (0 when it does not parse).
pub open spec fn form_value(f: RegFormView) -> u16 {
    parsed_or(f.value, 65535, 0) as u16
}

/// Coils as register values: 1 for on, 0 for off.
pub open spec fn bits_as_regs(b: Seq<bool>) -> Seq<u16> {
    b.map_values(|x: bool| if x { 1u16 } else { 0u16 })
}

/// What the emulator answers to a read of table `kind` (0 input registers,
/// 1 holding registers, 2 coils as 0/1); exception 0x02 for an unknown
/// slave or table.
pub open spec fn emu_read(devs: Seq<DeviceView>, kind: usize, slave: u8, start: u16, count: u16) -> Result<
    Seq<u16>,
    u8,
> {
    let i = find_slave(devs, slave);
    if i < 0 || kind > 2 {
        Err(0x02)
    } else if kind == 0 {
        Ok(read_or_default(devs[i].input, start, count, 0u16))
    } else if kind == 1 {
        Ok(read_or_default(devs[i].holding, start, count, 0u16))
    } else {
        Ok(bits_as_regs(read_or_default(devs[i].coils, start, count, false)))
    }
}

/// The body of a Modbus read request for `count` items from `start`.
pub open spec fn read_body(start: u16, count: u16) -> Seq<u8> {
    crate::wire::be_bytes(start) + crate::wire::be_bytes(count)
}

/// The register form reads the tables a Modbus master reads: on an
/// existing emulated slave, a read of type 0 gives exactly the registers
/// that function 0x04 (read input registers) answers, type 1 those of
/// function 0x03 (read holding registers), and type 2 gives 1 for exactly
/// the coils whose bit function 0x01 (read coils) sets.
pub proof fn lemma_form_reads_match_modbus(devs: Seq<DeviceView>, slave: u8, start: u16, count: u16)
    requires
        find_slave(devs, slave) >= 0,
        1 <= count <= 125,
        start + count <= 0x10000,
    ensures
        emu_read(devs, 0, slave, start, count) matches Ok(r) && crate::tcp::spec_pdu_reply(
            devs,
            slave,
            0x04,
            read_body(start, count),
        ) == Ok::<Seq<u8>, u8>(seq![(2 * count) as u8] + crate::wire::regs_be(r)),
        emu_read(devs, 1, slave, start, count) matches Ok(r) && crate::tcp::spec_pdu_reply(
            devs,
            slave,
            0x03,
            read_body(start, count),
        ) == Ok::<Seq<u8>, u8>(seq![(2 * count) as u8] + crate::wire::regs_be(r)),
        emu_read(devs, 2, slave, start, count) matches Ok(r) && crate::tcp::spec_pdu_reply(
            devs,
            slave,
            0x01,
            read_body(start, count),
        ) matches Ok(p) && r.len() == count && forall|j: int|
            0 <= j < count ==> (#[trigger] r[j] == 1u16 || r[j] == 0u16) && (r[j] == 1u16) == ((p[1 + j
                / 8] >> ((j % 8) as u8)) & 1u8 == 1u8),
{
    let body = read_body(start, count);
    assert(crate::wire::field(body, 0) == start);
    assert(crate::wire::field(body, 2) == count);
    let i = find_slave(devs, slave);
    crate::emulator::lemma_find_slave_from(devs, slave, 0);
    let bits = read_or_default(devs[i].coils, start, count, false);
    let p = crate::tcp::spec_pdu_reply(devs, slave, 0x01, body)->Ok_0;
    assert(p == seq![crate::bits::packed_len(count as nat) as u8] + crate::bits::pack_bits(bits));
    let r = bits_as_regs(bits);
    assert forall|j: int| 0 <= j < count implies (#[trigger] r[j] == 1u16 || r[j] == 0u16) && (r[j]
        == 1u16) == ((p[1 + j / 8] >> ((j % 8) as u8)) & 1u8 == 1u8) by {
        crate::bits::lemma_pack_byte_bit(bits, j / 8, j % 8);
        assert((j / 8) * 8 + j % 8 == j);
        assert(j / 8 < crate::bits::packed_len(count as nat));
        assert(p[1 + j / 8] == crate::bits::pack_bits(bits)[j / 8]);
    }
}

/// A register form read stays inside the address space of an existing
/// emulated slave (otherwise the address arithmetic would overflow).
pub open spec fn form_read_in_bounds(v: AppView) -> bool {
    v.reg_form.reg_type <= 2 && find_slave(v.emu, form_slave(v.reg_form)) >= 0 ==> form_start(v.reg_form)
        + form_count(v.reg_form) <= 0x10000
}

/// `, `-separated decimal numbers.
pub open spec fn join_dec(s: Seq<u16>) -> Seq<char>
    decreases s.len(),
{
    if s.len() == 0 {
        Seq::empty()
    } else if s.len() == 1 {
        dec(s[0] as nat)
    } else {
        join_dec(s.drop_last()) + ", "@ + dec(s.last() as nat)
    }
}

/// A list of numbers as `{:?}` shows it: `[1, 2, 3]`.
pub open spec fn debug_list(s: Seq<u16>) -> Seq<char> {
    "["@ + join_dec(s) + "]"@
}

/// "Not connected" log line and status.
pub open spec fn not_connected(v: AppView) -> AppView {
    AppView {
        status_line: "Not connected: press [e] for emulator, or [c] in Ports"@,
        ..with_log(v, 2, "Not connected"@)
    }
}

/// The state and the serial work after the read key of the register form:
/// read from the emulator when it is polled, hand a read to the serial
/// master when one is open, complain otherwise.
pub open spec fn spec_read_registers(v: AppView) -> (AppView, Option<SerialOp>) {
    let f = v.reg_form;
    let slave = form_slave(f);
    if spec_is_emu(v) {
        match emu_read(v.emu, f.reg_type, slave, form_start(f), form_count(f)) {
            Ok(regs) => (
                AppView {
                    status_line: debug_list(regs),
                    ..with_log(v, 1, "Read "@ + dec(regs.len()) + " regs from slave "@ + dec(slave as nat))
                },
                None,
            ),
            Err(code) => (
                AppView {
                    status_line: "Read failed: exception 0x"@ + crate::text::hex2(code),
                    ..with_log(v, 3, "Read failed (exception 0x"@ + crate::text::hex2(code) + ")"@)
                },
                None,
            ),
        }
    } else if v.serial_port is None {
        (not_connected(v), None)
    } else if f.reg_type > 2 {
        (v, None)
    } else {
        (v, Some(SerialOp::ReadRegisters { reg_type: f.reg_type, start: form_start(f), count: form_count(f) }))
    }
}

/// What a write of the register form is called in messages.
pub open spec fn write_what(reg_type: usize) -> Seq<char> {
    if reg_type == 1 {
        "holding reg"@
    } else if reg_type == 2 {
        "coil"@
    } else {
        "reg"@
    }
}

/// The emulator after a write of table `kind` (1 holding register, 2 coil,
/// on when `value` is not 0), and its answer; exception 0x02 for an
/// unknown slave or table.
pub open spec fn emu_write(devs: Seq<DeviceView>, kind: usize, slave: u8, addr: u16, value: u16) -> (Seq<
    DeviceView,
>, Result<(), u8>) {
    let i = find_slave(devs, slave);
    if i < 0 || (kind != 1 && kind != 2) {
        (devs, Err(0x02))
    } else if kind == 1 {
        (devs.update(i, DeviceView { holding: devs[i].holding.insert(addr, value), ..devs[i] }), Ok(()))
    } else {
        (devs.update(i, DeviceView { coils: devs[i].coils.insert(addr, value != 0), ..devs[i] }), Ok(()))
    }
}

/// The state and the serial work after the write key of the register form.
pub open spec fn spec_write_register(v: AppView) -> (AppView, Option<SerialOp>) {
    let f = v.reg_form;
    let slave = form_slave(f);
    let addr = form_addr(f);
    let value = form_value(f);
    if spec_is_emu(v) {
        let (devs, res) = emu_write(v.emu, f.reg_type, slave, addr, value);
        let w = AppView { emu: devs, ..v };
        match res {
            Ok(_) => (
                AppView {
                    status_line: "Wrote "@ + dec(value as nat) + " -> "@ + dec(addr as nat) + " "@ + write_what(
                        f.reg_type,
                    ),
                    ..with_log(
                        w,
                        1,
                        "Wrote "@ + dec(value as nat) + " to "@ + dec(addr as nat) + " "@ + write_what(f.reg_type)
                            + " (slave "@ + dec(slave as nat) + ")"@,
                    )
                },
                None,
            ),
            Err(code) => (
                AppView {
                    status_line: "Write failed: exception 0x"@ + crate::text::hex2(code),
                    ..with_log(w, 3, "Write failed (exception 0x"@ + crate::text::hex2(code) + ")"@)
                },
                None,
            ),
        }
    } else if v.serial_port is None {
        (not_connected(v), None)
    } else if f.reg_type != 1 && f.reg_type != 2 {
        (v, None)
    } else {
        (v, Some(SerialOp::WriteRegister { reg_type: f.reg_type, addr, value }))
    }
}

/// The slave shown as dashboard device `device` (1 when there is none).
pub open spec fn snapshot_slave(v: AppView, device: usize) -> u8 {
    if device < v.snapshot.len() {
        v.snapshot[device as int].slave_id
    } else {
        1
    }
}

/// `true` or `false`.
pub open spec fn bool_text(b: bool) -> Seq<char> {
    if b {
        "true"@
    } else {
        "false"@
    }
}

/// The state and the serial work after toggling coil `coil` of dashboard
/// device `device` (a pump): on the emulator the coil is read (off when
/// unreadable) and its opposite written.
pub open spec fn spec_toggle_coil(v: AppView, device: usize, coil: u16) -> (AppView, Option<SerialOp>) {
    let slave = snapshot_slave(v, device);
    if spec_is_emu(v) {
        let i = find_slave(v.emu, slave);
        let current = if i >= 0 && v.emu[i].coils.contains_key(coil) {
            v.emu[i].coils[coil]
        } else {
            false
        };
        let (devs, res) = emu_write(v.emu, 2, slave, coil, if current { 0 } else { 1 });
        let w = AppView { emu: devs, ..v };
        match res {
            Ok(_) => (
                with_log(w, 1, "Coil "@ + dec(coil as nat) + "="@ + bool_text(!current) + " (slave "@ + dec(
                    slave as nat,
                ) + ")"@),
                None,
            ),
            Err(code) => (with_log(w, 3, "Coil write failed (0x"@ + crate::text::hex2(code) + ")"@), None),
        }
    } else if v.serial_port is None {
        (v, None)
    } else {
        (v, Some(SerialOp::ToggleCoil { coil }))
    }
}

/// The coil value a toggle starts from: the coil of the device polled at
/// `slave`, off when it has none.
pub open spec fn coil_before(devs: Seq<DeviceView>, slave: u8, coil: u16) -> bool {
    let i = find_slave(devs, slave);
    i >= 0 && devs[i].coils.contains_key(coil) && devs[i].coils[coil]
}

/// A toggle on the emulator switches the coil: afterwards the device at the
/// pump's slave address holds the opposite of what it held before (a coil
/// it did not hold counts as off), no device is added or removed, and no
/// slave address changes.
pub proof fn lemma_toggle_switches_coil(v: AppView, device: usize, coil: u16)
    requires
        spec_is_emu(v),
        find_slave(v.emu, snapshot_slave(v, device)) >= 0,
    ensures
        ({
            let slave = snapshot_slave(v, device);
            let w = spec_toggle_coil(v, device, coil).0;
            let i = find_slave(v.emu, slave);
            &&& w.emu.len() == v.emu.len()
            &&& forall|j: int| 0 <= j < v.emu.len() ==> #[trigger] w.emu[j].slave_id == v.emu[j].slave_id
            &&& find_slave(w.emu, slave) == i
            &&& w.emu[i].coils.contains_key(coil)
            &&& w.emu[i].coils[coil] == !coil_before(v.emu, slave, coil)
            &&& coil_before(w.emu, slave, coil) == !coil_before(v.emu, slave, coil)
            &&& spec_is_emu(w)
            &&& w.snapshot == v.snapshot
        }),
{
    let slave = snapshot_slave(v, device);
    let i = find_slave(v.emu, slave);
    crate::emulator::lemma_find_slave_from(v.emu, slave, 0);
    let w = spec_toggle_coil(v, device, coil).0;
    assert(w.emu.len() == v.emu.len());
    assert(forall|j: int| 0 <= j < v.emu.len() ==> #[trigger] w.emu[j].slave_id == v.emu[j].slave_id);
    crate::tcp::lemma_find_slave_same_ids(v.emu, w.emu, slave, 0);
}

/// Toggling a pump's coil twice on the emulator leaves it as it was (a coil
/// that was not held comes back off).
pub proof fn lemma_toggle_twice_restores(v: AppView, device: usize, coil: u16)
    requires
        spec_is_emu(v),
        find_slave(v.emu, snapshot_slave(v, device)) >= 0,
    ensures
        coil_before(spec_toggle_coil(spec_toggle_coil(v, device, coil).0, device, coil).0.emu,
            snapshot_slave(v, device), coil) == coil_before(v.emu, snapshot_slave(v, device), coil),
{
    let w = spec_toggle_coil(v, device, coil).0;
    lemma_toggle_switches_coil(v, device, coil);
    assert(snapshot_slave(w, device) == snapshot_slave(v, device));
    lemma_toggle_switches_coil(w, device, coil);
}

fn push_hex_code(s: &mut String, code: u8)
    ensures
        final(s)@ == old(s)@ + crate::text::hex2(code),
{
    crate::text::push_hex2(s, code)
}

fn push_bool(s: &mut String, b: bool)
    ensures
        final(s)@ == old(s)@ + bool_text(b),
{
    if b {
        push_str(s, "true");
    } else {
        push_str(s, "false");
    }
}

fn parse_or(s: &str, max: usize, dflt: usize) -> (r: usize)
    requires
        dflt <= max,
    ensures
        r == parsed_or(s@, max as nat, dflt as nat),
        r <= max,
{
    match crate::text::parse_uint(s, max) {
        Some(n) => n,
        None => dflt,
    }
}

fn debug_list_string(regs: &[u16]) -> (r: String)
    ensures
        r@ == debug_list(regs@),
{
    let mut out = string_of("[");
    let mut i: usize = 0;
    while i < regs.len()
        invariant
            i <= regs@.len(),
            out@ == "["@ + join_dec(regs@.take(i as int)),
        decreases regs@.len() - i,
    {
        proof {
            assert(regs@.take(i + 1).drop_last() =~= regs@.take(i as int));
        }
        if i > 0 {
            push_str(&mut out, ", ");
        }
        push_dec(&mut out, regs[i] as u64);
        i = i + 1;
        proof {
            if i == 1 {
                assert(out@ =~= "["@ + join_dec(regs@.take(i as int)));
            } else {
                assert(out@ =~= "["@ + join_dec(regs@.take(i as int)));
            }
        }
    }
    proof {
        assert(regs@.take(i as int) =~= regs@);
    }
    push_str(&mut out, "]");
    out
}

fn bits_to_regs(b: &[bool]) -> (r: Vec<u16>)
    ensures
        r@ == bits_as_regs(b@),
{
    let mut out: Vec<u16> = Vec::new();
    let mut i: usize = 0;
    while i < b.len()
        invariant
            i <= b@.len(),
            out@ =~= bits_as_regs(b@.take(i as int)),
        decreases b@.len() - i,
    {
        out.push(if b[i] { 1 } else { 0 });
        i = i + 1;
    }
    proof {
        assert(b@.take(i as int) =~= b@);
    }
    out
}

impl App {
    /// Whether the register form's read stays inside the address space of
    /// an existing emulated slave; a read that does not is refused before
    /// it reaches the emulator.
    pub fn form_read_in_bounds(&self) -> (r: bool)
        ensures
            r == form_read_in_bounds(self@),
    {
        let f = &self.reg_form;
        let slave = parse_or(f.slave_id.as_str(), 255, 1) as u8;
        let start = parse_or(f.start.as_str(), 65535, 0) as u16;
        let c = parse_or(f.count.as_str(), 65535, 10);
        let count: u16 = if c > 125 { 125 } else { c as u16 };
        if f.reg_type > 2 {
            return true;
        }
        let known = self.has_slave(slave);
        !known || start as u32 + count as u32 <= 0x10000
    }

    fn has_slave(&self, slave: u8) -> (r: bool)
        ensures
            r == (find_slave(self@.emu, slave) >= 0),
    {
        let devs = self.emu.devices();
        let mut i: usize = 0;
        while i < devs.len()
            invariant
                i <= devs@.len(),
                devs@.map_values(|d: crate::emulator::EmuDevice| d@) == self@.emu,
                find_slave(self@.emu, slave) == crate::emulator::find_slave_from(self@.emu, slave, i as int),
            decreases devs@.len() - i,
        {
            proof {
                assert(devs@[i as int]@ == self@.emu[i as int]);
            }
            if devs[i].slave_id == slave {
                proof {
                    crate::emulator::lemma_find_slave_from(self@.emu, slave, i as int);
                }
                return true;
            }
            i = i + 1;
        }
        false
    }

    /// The register form's read (see `spec_read_registers`).
    pub fn read_registers(&mut self) -> (r: Option<SerialOp>)
        requires
            spec_is_emu(old(self)@) ==> form_read_in_bounds(old(self)@),
        ensures
            (final(self)@, r) == spec_read_registers(old(self)@),
    {
        let slave = parse_or(self.reg_form.slave_id.as_str(), 255, 1) as u8;
        let start = parse_or(self.reg_form.start.as_str(), 65535, 0) as u16;
        let c = parse_or(self.reg_form.count.as_str(), 65535, 10);
        let count: u16 = if c > 125 { 125 } else { c as u16 };
        let kind = self.reg_form.reg_type;
        if self.is_emu() {
            let result: Result<Vec<u16>, u8> = if kind == 0 {
                self.emu.read_input_regs(slave, start, count)
            } else if kind == 1 {
                self.emu.read_holding_regs(slave, start, count)
            } else if kind == 2 {
                match self.emu.read_coils(slave, start, count) {
                    Ok(b) => Ok(bits_to_regs(b.as_slice())),
                    Err(e) => Err(e),
                }
            } else {
                Err(0x02)
            };
            match result {
                Ok(regs) => {
                    let mut msg = string_of("Read ");
                    push_dec(&mut msg, regs.len() as u64);
                    push_str(&mut msg, " regs from slave ");
                    push_dec(&mut msg, slave as u64);
                    self.log(1, msg);
                    self.status_line = debug_list_string(regs.as_slice());
                },
                Err(code) => {
                    let mut msg = string_of("Read failed (exception 0x");
                    push_hex_code(&mut msg, code);
                    push_str(&mut msg, ")");
                    self.log(3, msg);
                    let mut st = string_of("Read failed: exception 0x");
                    push_hex_code(&mut st, code);
                    self.status_line = st;
                },
            }
            proof {
                assert(final(self)@ =~= spec_read_registers(old(self)@).0);
            }
            return None;
        }
        if self.serial_port.is_none() {
            self.log_str(2, "Not connected");
            self.status_line = string_of("Not connected: press [e] for emulator, or [c] in Ports");
            proof {
                assert(final(self)@ =~= spec_read_registers(old(self)@).0);
            }
            return None;
        }
        if kind > 2 {
            return None;
        }
        Some(SerialOp::ReadRegisters { reg_type: kind, start, count })
    }

    /// The register form's write (see `spec_write_register`).
    pub fn write_register(&mut self) -> (r: Option<SerialOp>)
        ensures
            (final(self)@, r) == spec_write_register(old(self)@),
    {
        let slave = parse_or(self.reg_form.slave_id.as_str(), 255, 1) as u8;
        let addr = parse_or(self.reg_form.addr.as_str(), 65535, 0) as u16;
        let value = parse_or(self.reg_form.value.as_str(), 65535, 0) as u16;
        let kind = self.reg_form.reg_type;
        if self.is_emu() {
            let result: Result<(), u8> = if kind == 1 {
                self.emu.write_holding_reg(slave, addr, value)
            } else if kind == 2 {
                self.emu.write_coil(slave, addr, value != 0)
            } else {
                Err(0x02)
            };
            let what: &str = if kind == 1 {
                "holding reg"
            } else if kind == 2 {
                "coil"
            } else {
                "reg"
            };
            match result {
                Ok(()) => {
                    let mut msg = string_of("Wrote ");
                    push_dec(&mut msg, value as u64);
                    push_str(&mut msg, " to ");
                    push_dec(&mut msg, addr as u64);
                    push_str(&mut msg, " ");
                    push_str(&mut msg, what);
                    push_str(&mut msg, " (slave ");
                    push_dec(&mut msg, slave as u64);
                    push_str(&mut msg, ")");
                    self.log(1, msg);
                    let mut st = string_of("Wrote ");
                    push_dec(&mut st, value as u64);
                    push_str(&mut st, " -> ");
                    push_dec(&mut st, addr as u64);
                    push_str(&mut st, " ");
                    push_str(&mut st, what);
                    self.status_line = st;
                },
                Err(code) => {
                    let mut msg = string_of("Write failed (exception 0x");
                    push_hex_code(&mut msg, code);
                    push_str(&mut msg, ")");
                    self.log(3, msg);
                    let mut st = string_of("Write failed: exception 0x");
                    push_hex_code(&mut st, code);
                    self.status_line = st;
                },
            }
            proof {
                assert(final(self)@ =~= spec_write_register(old(self)@).0);
            }
            return None;
        }
        if self.serial_port.is_none() {
            self.log_str(2, "Not connected");
            self.status_line = string_of("Not connected: press [e] for emulator, or [c] in Ports");
            proof {
                assert(final(self)@ =~= spec_write_register(old(self)@).0);
            }
            return None;
        }
        if kind != 1 && kind != 2 {
            return None;
        }
        Some(SerialOp::WriteRegister { reg_type: kind, addr, value })
    }

    /// Toggles coil `coil` of dashboard device `device` (see
    /// `spec_toggle_coil`).
    pub fn toggle_coil(&mut self, device: usize, coil: u16) -> (r: Option<SerialOp>)
        ensures
            (final(self)@, r) == spec_toggle_coil(old(self)@, device, coil),
    {
        let slave: u8 = if device < self.snapshot.len() {
            self.snapshot[device].slave_id
        } else {
            1
        };
        if self.is_emu() {
            let current = match self.emu.read_coils(slave, coil, 1) {
                Ok(v) => v[0],
                Err(_) => false,
            };
            let result = self.emu.write_coil(slave, coil, !current);
            match result {
                Ok(()) => {
                    let mut msg = string_of("Coil ");
                    push_dec(&mut msg, coil as u64);
                    push_str(&mut msg, "=");
                    push_bool(&mut msg, !current);
                    push_str(&mut msg, " (slave ");
                    push_dec(&mut msg, slave as u64);
                    push_str(&mut msg, ")");
                    self.log(1, msg);
                },
                Err(code) => {
                    let mut msg = string_of("Coil write failed (0x");
                    push_hex_code(&mut msg, code);
                    push_str(&mut msg, ")");
                    self.log(3, msg);
                },
            }
            proof {
                assert(final(self)@ =~= spec_toggle_coil(old(self)@, device, coil).0);
            }
            return None;
        }
        if self.serial_port.is_none() {
            return None;
        }
        Some(SerialOp::ToggleCoil { coil })
    }
}

/// The pair a new sensor of device `d` gets: the lowest free even pair.
pub open spec fn next_pair(d: DeviceView) -> int {
    choose|q: int| crate::emulator::first_free_pair(d, q)
}

/// Only one pair is the lowest free one.
pub proof fn lemma_first_free_pair_unique(d: DeviceView, a: int, b: int)
    requires
        crate::emulator::first_free_pair(d, a),
        crate::emulator::first_free_pair(d, b),
    ensures
        a == b,
{
    if a < b {
        assert(crate::emulator::pair_free(d, a));
    } else if b < a {
        assert(crate::emulator::pair_free(d, b));
    }
}

/// The device the sensor form targets (0 when the index does not parse).
pub open spec fn form_device(f: SensorFormView) -> nat {
    parsed_or(f.device_idx, usize::MAX as nat, 0)
}

/// The name a new sensor gets: the form's name, trimmed ("Sensor" when
/// blank); the default "New Sensor" is numbered after the sensors the
/// device already has, so that several of them stay apart.
pub open spec fn new_sensor_name(v: AppView) -> Seq<char> {
    let t = crate::text::trim(v.sensor_form.name);
    let n = if t.len() == 0 {
        "Sensor"@
    } else {
        t
    };
    if n == "New Sensor"@ {
        let idx = form_device(v.sensor_form);
        let k: nat = if idx < v.emu.len() {
            v.emu[idx as int].sensors.len() + 1
        } else {
            1
        };
        "New Sensor "@ + dec(k)
    } else {
        n
    }
}

/// The state after adding the form's sensor with the given float bits of
/// base, amplitude and period: on the lowest free register pair of the
/// target device.
pub open spec fn spec_add_sensor(v: AppView, base: u32, amplitude: u32, period_s: u32) -> AppView {
    let idx = form_device(v.sensor_form);
    let name = new_sensor_name(v);
    if idx >= v.emu.len() {
        with_log(v, 3, "Add sensor failed: device not found"@)
    } else {
        let d = v.emu[idx as int];
        with_log(
            AppView {
                emu: v.emu.update(
                    idx as int,
                    DeviceView {
                        sensors: d.sensors.push(
                            crate::emulator::sensor_view(
                                name,
                                v.sensor_form.kind,
                                base,
                                amplitude,
                                period_s,
                                next_pair(d) as u16,
                            ),
                        ),
                        ..d
                    },
                ),
                ..v
            },
            1,
            "Added sensor '"@ + name + "' to device "@ + dec(idx),
        )
    }
}

/// Whether adding the sensor form's sensor stays within the register
/// space: the target device is missing (the add is refused) or has a free
/// register pair. On a device whose pairs are all taken, a search for a
/// free pair would run past address 0xFFFF, so the add is not served.
pub open spec fn add_sensor_safe(v: AppView) -> bool {
    let idx = form_device(v.sensor_form);
    idx >= v.emu.len() || exists|q: int| crate::emulator::pair_free(v.emu[idx as int], q)
}

/// The state after a serial read came back (coils already as 0/1).
pub open spec fn spec_serial_read_done(v: AppView, result: Result<Seq<u16>, crate::frames::ModbusError>) -> AppView {
    match result {
        Ok(regs) => AppView {
            status_line: debug_list(regs),
            ..with_log(v, 1, "Read "@ + dec(regs.len()) + " regs"@)
        },
        Err(e) => AppView {
            status_line: "Read failed: "@ + crate::frames::error_text(e),
            ..with_log(v, 3, "Read failed: "@ + crate::frames::error_text(e))
        },
    }
}

/// The state after a serial write of `value` at `addr` came back.
pub open spec fn spec_serial_write_done(v: AppView, value: u16, addr: u16, result: Result<(), crate::frames::ModbusError>) -> AppView {
    match result {
        Ok(_) => AppView {
            status_line: "Wrote "@ + dec(value as nat) + " -> reg "@ + dec(addr as nat),
            ..with_log(v, 1, "Wrote "@ + dec(value as nat) + " to "@ + dec(addr as nat) + " (slave 1)"@)
        },
        Err(e) => AppView {
            status_line: "Write failed: "@ + crate::frames::error_text(e),
            ..with_log(v, 3, "Write failed: "@ + crate::frames::error_text(e))
        },
    }
}

impl App {
    /// Checks `add_sensor_safe`: the shell tests it before `add_sensor`.
    pub fn add_sensor_safe(&self) -> (r: bool)
        requires
            app_wf(self@),
        ensures
            r == add_sensor_safe(self@),
    {
        let idx = parse_or(self.sensor_form.device_idx.as_str(), usize::MAX, 0);
        if idx >= self.emu.devices().len() {
            return true;
        }
        self.emu.free_pair(idx).is_some()
    }

    /// Adds the sensor form's sensor to the emulator (see `spec_add_sensor`).
    /// `base`, `amplitude` and `period_s` are the float bits of the form's
    /// numbers as the shell read them (period at least 0.1 s).
    pub fn add_sensor(&mut self, base: u32, amplitude: u32, period_s: u32)
        requires
            app_wf(old(self)@),
            add_sensor_safe(old(self)@),
        ensures
            final(self)@ == spec_add_sensor(old(self)@, base, amplitude, period_s),
            app_wf(final(self)@),
    {
        let idx = parse_or(self.sensor_form.device_idx.as_str(), usize::MAX, 0);
        let t = crate::text::trimmed(self.sensor_form.name.as_str());
        let n = if t.unicode_len() == 0 {
            string_of("Sensor")
        } else {
            t
        };
        let name = if str_eq(n.as_str(), "New Sensor") {
            let k: u128 = match self.emu.device(idx) {
                Some(d) => (d.sensors.len() as u128) + 1,
                None => 1,
            };
            let mut nn = string_of("New Sensor ");
            crate::text::push_dec_wide(&mut nn, k);
            nn
        } else {
            n
        };
        proof {
            assert(name@ == new_sensor_name(old(self)@));
        }
        if idx >= self.emu.devices().len() {
            self.log_str(3, "Add sensor failed: device not found");
            return;
        }
        match self.emu.free_pair(idx) {
            None => {
                proof {
                    let q = choose|q: int| crate::emulator::pair_free(old(self)@.emu[idx as int], q);
                    assert(crate::emulator::pair_free(self@.emu[idx as int], q));
                }
                return;
            },
            Some(q) => {
                let ghost d = self@.emu[idx as int];
                proof {
                    lemma_first_free_pair_unique(d, q as int, next_pair(d));
                }
                let kind = self.sensor_form.kind;
                let _ = self.emu.add_sensor(idx, name.as_str(), kind, base, amplitude, period_s);
                proof {
                    let w = choose|w: int| {
                        &&& crate::emulator::first_free_pair(old(self)@.emu[idx as int], w)
                        &&& self@.emu == old(self)@.emu.update(
                            idx as int,
                            DeviceView {
                                sensors: old(self)@.emu[idx as int].sensors.push(
                                    SensorView {
                                        name: name@,
                                        data_type: kind,
                                        base,
                                        amplitude,
                                        period_s,
                                        input_reg: w as u16,
                                        enabled: true,
                                        last_value: base,
                                    },
                                ),
                                ..old(self)@.emu[idx as int]
                            },
                        )
                    };
                    lemma_first_free_pair_unique(d, w, next_pair(d));
                }
                let mut msg = string_of("Added sensor '");
                push_str(&mut msg, name.as_str());
                push_str(&mut msg, "' to device ");
                push_dec(&mut msg, idx as u64);
                self.log(1, msg);
            },
        }
        proof {
            assert(final(self)@ =~= spec_add_sensor(old(self)@, base, amplitude, period_s));
        }
    }

    /// The port to connect to on the connect key: the selected port (kept
    /// inside the list); `None`, with a warning logged, when there are no
    /// ports.
    pub fn connect_selected_port(&mut self) -> (r: Option<String>)
        ensures
            old(self)@.ports.len() == 0 ==> r is None && final(self)@ == with_log(old(self)@, 2, "No ports found"@),
            old(self)@.ports.len() > 0 ==> final(self)@ == old(self)@ && (r matches Some(name) && name@
                == old(self)@.ports[if old(self)@.selected_port < old(self)@.ports.len() - 1 {
                old(self)@.selected_port as int
            } else {
                old(self)@.ports.len() - 1
            }].name),
    {
        if self.ports.len() == 0 {
            self.log_str(2, "No ports found");
            return None;
        }
        let idx = if self.selected_port < self.ports.len() - 1 {
            self.selected_port
        } else {
            self.ports.len() - 1
        };
        proof {
            assert(self@.ports[idx as int] == self.ports@[idx as int]@);
        }
        Some(string_of(self.ports[idx].name.as_str()))
    }

    /// A serial master opened on `port`: it is polled from now on.
    pub fn serial_connected(&mut self, port: &str)
        ensures
            final(self)@ == (AppView {
                source: Some(port@),
                serial_port: Some(port@),
                status_line: "Connected: "@ + port@,
                ..with_log(old(self)@, 1, "Connected to "@ + port@)
            }),
    {
        let mut msg = string_of("Connected to ");
        push_str(&mut msg, port);
        self.log(1, msg);
        self.source = Some(string_of(port));
        self.serial_port = Some(string_of(port));
        let mut st = string_of("Connected: ");
        push_str(&mut st, port);
        self.status_line = st;
        proof {
            assert(final(self)@ =~= (AppView {
                source: Some(port@),
                serial_port: Some(port@),
                status_line: "Connected: "@ + port@,
                ..with_log(old(self)@, 1, "Connected to "@ + port@)
            }));
        }
    }

    /// Opening a serial master on `port` failed with `err`; polling has
    /// stopped.
    pub fn serial_failed(&mut self, port: &str, err: &str)
        ensures
            final(self)@ == (AppView {
                source: None,
                status_line: "FAILED: "@ + port@,
                ..with_log(old(self)@, 3, "Failed to open "@ + port@ + ": "@ + err@)
            }),
    {
        let mut msg = string_of("Failed to open ");
        push_str(&mut msg, port);
        push_str(&mut msg, ": ");
        push_str(&mut msg, err);
        self.log(3, msg);
        self.source = None;
        let mut st = string_of("FAILED: ");
        push_str(&mut st, port);
        self.status_line = st;
        proof {
            assert(final(self)@ =~= (AppView {
                source: None,
                status_line: "FAILED: "@ + port@,
                ..with_log(old(self)@, 3, "Failed to open "@ + port@ + ": "@ + err@)
            }));
        }
    }

    /// A Modbus TCP master was connected to the source keyed `key`
    /// (`tcp://host:port`): it is polled from now on.
    pub fn tcp_connected(&mut self, key: &str)
        ensures
            final(self)@ == (AppView {
                source: Some(key@),
                status_line: "Connected: "@ + key@,
                ..with_log(old(self)@, 1, "Connected to "@ + key@)
            }),
    {
        let mut msg = string_of("Connected to ");
        push_str(&mut msg, key);
        self.log(1, msg);
        self.source = Some(string_of(key));
        let mut st = string_of("Connected: ");
        push_str(&mut st, key);
        self.status_line = st;
        proof {
            assert(final(self)@ =~= (AppView {
                source: Some(key@),
                status_line: "Connected: "@ + key@,
                ..with_log(old(self)@, 1, "Connected to "@ + key@)
            }));
        }
    }

    /// The Modbus TCP master of the source keyed `key` was closed: polling
    /// stops when that source was being polled.
    pub fn tcp_closed(&mut self, key: &str)
        ensures
            final(self)@ == (AppView {
                source: if old(self)@.source == Some(key@) {
                    None
                } else {
                    old(self)@.source
                },
                ..with_log(old(self)@, 1, "Disconnected from "@ + key@)
            }),
    {
        let polled = match &self.source {
            Some(s) => str_eq(s.as_str(), key),
            None => false,
        };
        if polled {
            self.source = None;
        }
        let mut msg = string_of("Disconnected from ");
        push_str(&mut msg, key);
        self.log(1, msg);
        proof {
            assert(final(self)@ =~= (AppView {
                source: if old(self)@.source == Some(key@) {
                    None
                } else {
                    old(self)@.source
                },
                ..with_log(old(self)@, 1, "Disconnected from "@ + key@)
            }));
        }
    }

    /// A serial read of the register form came back.
    pub fn serial_read_done(&mut self, result: Result<Vec<u16>, crate::frames::ModbusError>)
        ensures
            final(self)@ == spec_serial_read_done(
                old(self)@,
                match result {
                    Ok(v) => Ok(v@),
                    Err(e) => Err(e),
                },
            ),
    {
        match result {
            Ok(regs) => {
                let mut msg = string_of("Read ");
                push_dec(&mut msg, regs.len() as u64);
                push_str(&mut msg, " regs");
                self.log(1, msg);
                self.status_line = debug_list_string(regs.as_slice());
            },
            Err(e) => {
                let text = e.message();
                let mut msg = string_of("Read failed: ");
                push_str(&mut msg, text.as_str());
                self.log(3, msg);
                let mut st = string_of("Read failed: ");
                push_str(&mut st, text.as_str());
                self.status_line = st;
            },
        }
        proof {
            assert(final(self)@ =~= spec_serial_read_done(
                old(self)@,
                match result {
                    Ok(v) => Ok(v@),
                    Err(e) => Err(e),
                },
            ));
        }
    }

    /// A serial read of coils came back: reported as 0/1 values.
    pub fn serial_bits_done(&mut self, result: Result<Vec<bool>, crate::frames::ModbusError>)
        ensures
            final(self)@ == spec_serial_read_done(
                old(self)@,
                match result {
                    Ok(v) => Ok(bits_as_regs(v@)),
                    Err(e) => Err(e),
                },
            ),
    {
        let mapped: Result<Vec<u16>, crate::frames::ModbusError> = match result {
            Ok(b) => Ok(bits_to_regs(b.as_slice())),
            Err(e) => Err(e),
        };
        self.serial_read_done(mapped);
    }

    /// A serial write of `value` at `addr` came back.
    pub fn serial_write_done(&mut self, value: u16, addr: u16, result: Result<(), crate::frames::ModbusError>)
        ensures
            final(self)@ == spec_serial_write_done(old(self)@, value, addr, result),
    {
        match result {
            Ok(()) => {
                let mut msg = string_of("Wrote ");
                push_dec(&mut msg, value as u64);
                push_str(&mut msg, " to ");
                push_dec(&mut msg, addr as u64);
                push_str(&mut msg, " (slave 1)");
                self.log(1, msg);
                let mut st = string_of("Wrote ");
                push_dec(&mut st, value as u64);
                push_str(&mut st, " -> reg ");
                push_dec(&mut st, addr as u64);
                self.status_line = st;
            },
            Err(e) => {
                let text = e.message();
                let mut msg = string_of("Write failed: ");
                push_str(&mut msg, text.as_str());
                self.log(3, msg);
                let mut st = string_of("Write failed: ");
                push_str(&mut st, text.as_str());
                self.status_line = st;
            },
        }
        proof {
            assert(final(self)@ =~= spec_serial_write_done(old(self)@, value, addr, result));
        }
    }

    /// A serial coil toggle came back: `value` is what was written.
    pub fn serial_coil_done(&mut self, coil: u16, value: bool, result: Result<(), crate::frames::ModbusError>)
        ensures
            final(self)@ == (match result {
                Ok(_) => with_log(old(self)@, 1, "Coil "@ + dec(coil as nat) + "="@ + bool_text(value)),
                Err(e) => with_log(old(self)@, 3, "Coil write failed: "@ + crate::frames::error_text(e)),
            }),
    {
        match result {
            Ok(()) => {
                let mut msg = string_of("Coil ");
                push_dec(&mut msg, coil as u64);
                push_str(&mut msg, "=");
                push_bool(&mut msg, value);
                self.log(1, msg);
            },
            Err(e) => {
                let text = e.message();
                let mut msg = string_of("Coil write failed: ");
                push_str(&mut msg, text.as_str());
                self.log(3, msg);
            },
        }
    }
}

/// The value a coil toggle writes after reading the coil: the opposite of
/// what was read, on when the read failed or gave nothing.
pub fn next_coil_value(read: &Result<Vec<bool>, crate::frames::ModbusError>) -> (r: bool)
    ensures
        r == !(match read {
            Ok(v) => v@.len() > 0 && v@[0],
            Err(_) => false,
        }),
{
    match read {
        Ok(v) => !(v.len() > 0 && v[0]),
        Err(_) => true,
    }
}

/// What the background workers report to the front end.
pub enum Event {
    /// Periodic tick (redraw).
    Ticked,
    /// The ports found by a scan.
    Scan(Vec<PortInfo>),
    /// Result of probing a port for a Modbus slave.
    Probe { port: String, slave: Option<u8> },
    /// A fresh snapshot of the polled devices.
    Snapshot(Vec<DeviceSnapshot>),
    /// Polling failed (for instance, the port was unplugged).
    PollError(String),
    /// A line for the log.
    Log(String),
}

/// The views of a list of ports.
pub open spec fn port_views(p: Seq<PortInfo>) -> Seq<PortView> {
    p.map_values(|x: PortInfo| x@)
}

/// Whether a port named `name` is in the list.
pub open spec fn has_port(ports: Seq<PortView>, name: Seq<char>) -> bool {
    exists|i: int| 0 <= i < ports.len() && #[trigger] ports[i].name == name
}

/// The log after appending the given lines in order.
pub open spec fn log_all(logs: Seq<LogView>, lines: Seq<LogView>) -> Seq<LogView>
    decreases lines.len(),
{
    if lines.len() == 0 {
        logs
    } else {
        let l = log_all(logs, lines.drop_last());
        logged(l, lines.last().level, lines.last().text)
    }
}

/// Log lines for the ports among the first `k` of a scan that were not
/// there before: an ESP-like port is announced as a detected board.
pub open spec fn arrival_lines(prev: Seq<PortView>, ports: Seq<PortView>, k: nat) -> Seq<LogView>
    decreases k,
{
    if k == 0 || k > ports.len() {
        Seq::empty()
    } else {
        let rest = arrival_lines(prev, ports, (k - 1) as nat);
        let p = ports[k - 1];
        if has_port(prev, p.name) {
            rest
        } else if p.is_esp_like {
            rest.push(LogView { level: 1, text: "🔌 ESP32 detected: "@ + p.name })
        } else {
            rest.push(LogView { level: 0, text: "+ Port: "@ + p.name })
        }
    }
}

/// The state after reporting the ports among the first `k` of `prev` that
/// a scan no longer shows; losing the open serial port closes it.
pub open spec fn departures(v: AppView, prev: Seq<PortView>, now: Seq<PortView>, k: nat) -> AppView
    decreases k,
{
    if k == 0 || k > prev.len() {
        v
    } else {
        let w = departures(v, prev, now, (k - 1) as nat);
        let gone = prev[k - 1].name;
        if has_port(now, gone) {
            w
        } else {
            let w1 = with_log(w, 3, "- Port removed: "@ + gone);
            if w1.serial_port == Some(gone) {
                spec_disconnect_serial(with_log(w1, 3, gone + " disconnected"@))
            } else {
                w1
            }
        }
    }
}

/// Departures neither read nor change the port list.
pub proof fn lemma_departures_keep_ports(
    v: AppView,
    p: Seq<PortView>,
    prev: Seq<PortView>,
    now: Seq<PortView>,
    k: nat,
)
    ensures
        departures(AppView { ports: p, ..v }, prev, now, k) == (AppView {
            ports: p,
            ..departures(v, prev, now, k)
        }),
    decreases k,
{
    if k > 0 && k <= prev.len() {
        lemma_departures_keep_ports(v, p, prev, now, (k - 1) as nat);
    }
}

/// The state after a scan found `ports`: arrivals and departures logged,
/// the list replaced, the selection kept inside it.
pub open spec fn spec_scan(v: AppView, ports: Seq<PortView>) -> AppView {
    let v1 = AppView { logs: log_all(v.logs, arrival_lines(v.ports, ports, ports.len())), ..v };
    let v2 = departures(v1, v.ports, ports, v.ports.len());
    AppView {
        ports,
        selected_port: if v2.selected_port >= ports.len() && ports.len() > 0 {
            (ports.len() - 1) as usize
        } else {
            v2.selected_port
        },
        ..v2
    }
}

/// Index of the first port named `name`, -1 if none.
pub open spec fn port_index(ports: Seq<PortView>, name: Seq<char>, i: int) -> int
    decreases ports.len() - i,
{
    if i < 0 || i >= ports.len() {
        -1
    } else if ports[i].name == name {
        i
    } else {
        port_index(ports, name, i + 1)
    }
}

/// The state after a probe of `port`: the port is marked as having a
/// Modbus slave or not, and a found slave is logged.
pub open spec fn spec_probe(v: AppView, port: Seq<char>, slave: Option<u8>) -> AppView {
    let i = port_index(v.ports, port, 0);
    let ports = if i >= 0 {
        v.ports.update(i, PortView { has_firmware: slave is Some, ..v.ports[i] })
    } else {
        v.ports
    };
    let w = AppView { ports, ..v };
    match slave {
        Some(s) => with_log(w, 0, "Modbus slave ID "@ + dec(s as nat) + " found on "@ + port),
        None => w,
    }
}

/// The state after a worker event.
pub open spec fn spec_handle_event(v: AppView, ev: Event) -> AppView {
    match ev {
        Event::Ticked => AppView { tick: if v.tick == u64::MAX { 0 } else { (v.tick + 1) as u64 }, ..v },
        Event::Scan(ports) => spec_scan(v, port_views(ports@)),
        Event::Probe { port, slave } => spec_probe(v, port@, slave),
        Event::Snapshot(devs) => AppView { snapshot: snapshot_views(devs@), last_poll_error: None, ..v },
        Event::PollError(e) => with_log(AppView { last_poll_error: Some(e@), ..v }, 3, "Poll error: "@ + e@),
        Event::Log(text) => with_log(v, 0, text@),
    }
}

/// The outside work an event asks for: when the event closed the open
/// serial port, close its master, and stop the background poller when
/// polling stopped with it.
pub open spec fn spec_event_action(v: AppView, ev: Event) -> crate::keys::ActionView {
    let w = spec_handle_event(v, ev);
    if v.serial_port is Some && w.serial_port is None {
        crate::keys::ActionView::CloseSerial { stop_poller: v.source is Some && w.source is None }
    } else {
        crate::keys::ActionView::Nothing
    }
}

fn port_named(ports: &[PortInfo], name: &str) -> (r: bool)
    ensures
        r == has_port(port_views(ports@), name@),
{
    let ghost pv = port_views(ports@);
    let mut i: usize = 0;
    while i < ports.len()
        invariant
            i <= ports@.len(),
            pv == port_views(ports@),
            forall|j: int| 0 <= j < i ==> pv[j].name != name@,
        decreases ports@.len() - i,
    {
        if str_eq(ports[i].name.as_str(), name) {
            proof {
                assert(pv[i as int].name == name@);
            }
            return true;
        }
        i = i + 1;
    }
    false
}

impl App {
    fn report_arrivals(&mut self, ports: &[PortInfo])
        ensures
            final(self)@ == (AppView {
                logs: log_all(old(self)@.logs, arrival_lines(old(self)@.ports, port_views(ports@), ports@.len())),
                ..old(self)@
            }),
    {
        let ghost pv = port_views(ports@);
        let mut k: usize = 0;
        while k < ports.len()
            invariant
                k <= ports@.len(),
                pv == port_views(ports@),
                self@.ports == old(self)@.ports,
                self@ == (AppView { logs: log_all(old(self)@.logs, arrival_lines(old(self)@.ports, pv, k as nat)), ..old(self)@ }),
            decreases ports@.len() - k,
        {
            let p = &ports[k];
            proof {
                assert(pv[k as int] == p@);
            }
            let seen = port_named(self.ports.as_slice(), p.name.as_str());
            let ghost before = arrival_lines(old(self)@.ports, pv, k as nat);
            if !seen {
                if p.is_esp_like {
                    let mut m = string_of("🔌 ESP32 detected: ");
                    push_str(&mut m, p.name.as_str());
                    self.log(1, m);
                } else {
                    let mut m = string_of("+ Port: ");
                    push_str(&mut m, p.name.as_str());
                    self.log(0, m);
                }
            }
            proof {
                let after = arrival_lines(old(self)@.ports, pv, (k + 1) as nat);
                if !seen {
                    assert(after.drop_last() =~= before);
                }
            }
            k = k + 1;
        }
    }

    fn report_departures(&mut self, prev: &[PortInfo], now: &[PortInfo])
        ensures
            final(self)@ == departures(old(self)@, port_views(prev@), port_views(now@), prev@.len()),
    {
        let mut k: usize = 0;
        while k < prev.len()
            invariant
                k <= prev@.len(),
                self@ == departures(old(self)@, port_views(prev@), port_views(now@), k as nat),
            decreases prev@.len() - k,
        {
            let gone = &prev[k];
            proof {
                assert(port_views(prev@)[k as int] == gone@);
            }
            if !port_named(now, gone.name.as_str()) {
                let mut m = string_of("- Port removed: ");
                push_str(&mut m, gone.name.as_str());
                self.log(3, m);
                let open_here = match &self.serial_port {
                    Some(sp) => str_eq(sp.as_str(), gone.name.as_str()),
                    None => false,
                };
                if open_here {
                    let mut m = string_of(gone.name.as_str());
                    push_str(&mut m, " disconnected");
                    self.log(3, m);
                    self.disconnect_serial();
                }
            }
            k = k + 1;
        }
    }

    /// Takes in an event from the workers (see `spec_handle_event`) and
    /// returns the outside work it asks for (see `spec_event_action`): a
    /// scan that no longer lists the open serial port closes the serial
    /// master.
    pub fn handle_event(&mut self, ev: Event) -> (r: crate::keys::KeyAction)
        ensures
            final(self)@ == spec_handle_event(old(self)@, ev),
            crate::keys::action_view(r) == spec_event_action(old(self)@, ev),
    {
        let had_port = self.serial_port.is_some();
        let had_source = self.source.is_some();
        self.apply_event(ev);
        if had_port && self.serial_port.is_none() {
            crate::keys::KeyAction::CloseSerial { stop_poller: had_source && self.source.is_none() }
        } else {
            crate::keys::KeyAction::Nothing
        }
    }

    fn apply_event(&mut self, ev: Event)
        ensures
            final(self)@ == spec_handle_event(old(self)@, ev),
    {
        match ev {
            Event::Ticked => {
                self.tick = self.tick.wrapping_add(1);
                proof {
                    assert(final(self)@ =~= spec_handle_event(old(self)@, ev));
                }
            },
            Event::Scan(ports) => {
                self.report_arrivals(ports.as_slice());
                let ghost v1 = self@;
                let mut prev: Vec<PortInfo> = Vec::new();
                std::mem::swap(&mut prev, &mut self.ports);
                proof {
                    assert(port_views(self.ports@) =~= Seq::<PortView>::empty());
                    assert(self@ == AppView { ports: Seq::<PortView>::empty(), ..v1 });
                }
                self.report_departures(prev.as_slice(), ports.as_slice());
                proof {
                    lemma_departures_keep_ports(v1, Seq::empty(), port_views(prev@), port_views(ports@), prev@.len());
                }
                let n = ports.len();
                self.ports = ports;
                if self.selected_port >= n && n > 0 {
                    self.selected_port = n - 1;
                }
                proof {
                    assert(final(self)@ =~= spec_handle_event(old(self)@, ev));
                }
            },
            Event::Probe { port, slave } => {
                let mut i: usize = 0;
                let ghost pv = self@.ports;
                while i < self.ports.len() && !str_eq(self.ports[i].name.as_str(), port.as_str())
                    invariant
                        i <= self.ports@.len(),
                        pv == port_views(self.ports@),
                        self@ == old(self)@,
                        port_index(pv, port@, 0) == port_index(pv, port@, i as int),
                    decreases self.ports@.len() - i,
                {
                    proof {
                        assert(pv[i as int] == self.ports@[i as int]@);
                    }
                    i = i + 1;
                }
                if i < self.ports.len() {
                    proof {
                        assert(pv[i as int] == self.ports@[i as int]@);
                    }
                    self.ports[i].has_firmware = slave.is_some();
                    proof {
                        assert(port_views(self.ports@) =~= pv.update(
                            i as int,
                            PortView { has_firmware: slave is Some, ..pv[i as int] },
                        ));
                    }
                }
                match slave {
                    Some(s) => {
                        let mut m = string_of("Modbus slave ID ");
                        push_dec(&mut m, s as u64);
                        push_str(&mut m, " found on ");
                        push_str(&mut m, port.as_str());
                        self.log(0, m);
                    },
                    None => {},
                }
                proof {
                    assert(final(self)@ =~= spec_handle_event(old(self)@, ev));
                }
            },
            Event::Snapshot(devs) => {
                self.snapshot = devs;
                self.last_poll_error = None;
                proof {
                    assert(final(self)@ =~= spec_handle_event(old(self)@, ev));
                }
            },
            Event::PollError(e) => {
                let mut m = string_of("Poll error: ");
                push_str(&mut m, e.as_str());
                self.last_poll_error = Some(e);
                self.log(3, m);
                proof {
                    assert(final(self)@ =~= spec_handle_event(old(self)@, ev));
                }
            },
            Event::Log(text) => {
                self.log(0, text);
            },
        }
    }
}

/// The port firmware work targets: the port chosen for firmware, else the
/// open serial port.
pub open spec fn fw_target(v: AppView) -> Option<Seq<char>> {
    if v.fw_port is Some {
        v.fw_port
    } else {
        v.serial_port
    }
}

/// The backup a restore takes: the selected one, kept inside the list.
pub open spec fn chosen_backup(v: AppView) -> Option<Seq<char>> {
    if v.backups.len() == 0 {
        None
    } else if v.backup_selected < v.backups.len() - 1 {
        Some(v.backups[v.backup_selected as int])
    } else {
        Some(v.backups[v.backups.len() - 1])
    }
}

/// The log line of a finished tool run: `ok_text` on success, else
/// `fail_text` followed by the trimmed error.
pub open spec fn run_line(v: AppView, r: crate::firmware::FwResult, ok_text: Seq<char>, fail_text: Seq<char>) -> AppView {
    if r.ok {
        with_log(v, 1, ok_text)
    } else {
        with_log(v, 3, fail_text + crate::text::trim(r.error@))
    }
}

fn clone_opt(o: &Option<String>) -> (r: Option<String>)
    ensures
        opt_view(r) == opt_view(*o),
{
    match o {
        Some(s) => Some(string_of(s.as_str())),
        None => None,
    }
}

impl App {
    /// The port for firmware work (see `fw_target`); `None`, with a
    /// warning logged, when there is none.
    pub fn fw_target_port(&mut self) -> (r: Option<String>)
        ensures
            opt_view(r) == fw_target(old(self)@),
            final(self)@ == (if fw_target(old(self)@) is None {
                with_log(old(self)@, 2, "No port selected"@)
            } else {
                old(self)@
            }),
    {
        let port = if self.fw_port.is_some() {
            clone_opt(&self.fw_port)
        } else {
            clone_opt(&self.serial_port)
        };
        if port.is_none() {
            self.log_str(2, "No port selected");
        }
        port
    }

    /// A board-info run on `port` finished.
    pub fn fw_board_info_done(&mut self, port: &str, result: &crate::firmware::FwResult)
        ensures
            final(self)@ == run_line(
                old(self)@,
                *result,
                "Board info OK ("@ + port@ + "): "@ + crate::text::trim(result.output@),
                "Board info failed: "@,
            ),
    {
        if result.ok {
            let mut m = string_of("Board info OK (");
            push_str(&mut m, port);
            push_str(&mut m, "): ");
            let t = crate::text::trimmed(result.output.as_str());
            push_str(&mut m, t.as_str());
            self.log(1, m);
        } else {
            let mut m = string_of("Board info failed: ");
            let t = crate::text::trimmed(result.error.as_str());
            push_str(&mut m, t.as_str());
            self.log(3, m);
        }
    }

    /// The test image to flash has not been built.
    pub fn fw_missing_image(&mut self)
        ensures
            final(self)@ == with_log(old(self)@, 2, "Test firmware not built. Run cargo build in esp32-fw/ first."@),
    {
        self.log_str(2, "Test firmware not built. Run cargo build in esp32-fw/ first.");
    }

    /// Flashing the test image on `port` finished.
    pub fn fw_flash_done(&mut self, port: &str, result: &crate::firmware::FwResult)
        ensures
            final(self)@ == run_line(old(self)@, *result, "Flash OK on "@ + port@, "Flash failed: "@),
    {
        if result.ok {
            let mut m = string_of("Flash OK on ");
            push_str(&mut m, port);
            self.log(1, m);
        } else {
            let mut m = string_of("Flash failed: ");
            let t = crate::text::trimmed(result.error.as_str());
            push_str(&mut m, t.as_str());
            self.log(3, m);
        }
    }

    /// A backup into `path` finished; on success the shell then hands over
    /// the new list of backups (`set_backups`).
    pub fn fw_backup_done(&mut self, path: &str, result: &crate::firmware::FwResult)
        ensures
            final(self)@ == run_line(old(self)@, *result, "Backup saved: "@ + path@, "Backup failed: "@),
    {
        if result.ok {
            let mut m = string_of("Backup saved: ");
            push_str(&mut m, path);
            self.log(1, m);
        } else {
            let mut m = string_of("Backup failed: ");
            let t = crate::text::trimmed(result.error.as_str());
            push_str(&mut m, t.as_str());
            self.log(3, m);
        }
    }

    /// The list of backups found, sorted; the newest (last) is selected.
    pub fn set_backups(&mut self, list: Vec<String>)
        ensures
            final(self)@ == (AppView {
                backups: list@.map_values(|b: String| b@),
                backup_selected: if list@.len() > 0 {
                    (list@.len() - 1) as usize
                } else {
                    0
                },
                ..old(self)@
            }),
    {
        let n = list.len();
        self.backups = list;
        self.backup_selected = if n > 0 {
            n - 1
        } else {
            0
        };
        proof {
            assert(final(self)@ =~= (AppView {
                backups: list@.map_values(|b: String| b@),
                backup_selected: if list@.len() > 0 {
                    (list@.len() - 1) as usize
                } else {
                    0
                },
                ..old(self)@
            }));
        }
    }

    /// The port and backup a restore takes (see `fw_target` and
    /// `chosen_backup`); `None`, with a warning logged, when either is
    /// missing.
    pub fn fw_restore_choice(&mut self) -> (r: Option<(String, String)>)
        ensures
            fw_target(old(self)@) is None ==> r is None && final(self)@ == with_log(
                old(self)@,
                2,
                "No port selected"@,
            ),
            fw_target(old(self)@) is Some && chosen_backup(old(self)@) is None ==> r is None && final(self)@
                == with_log(old(self)@, 2, "No backup selected"@),
            fw_target(old(self)@) is Some && chosen_backup(old(self)@) is Some ==> final(self)@ == old(
                self,
            )@ && (r matches Some((p, b)) && Some(p@) == fw_target(old(self)@) && Some(b@) == chosen_backup(
                old(self)@,
            )),
    {
        let port = match self.fw_target_port() {
            Some(p) => p,
            None => {
                return None;
            },
        };
        let n = self.backups.len();
        if n == 0 {
            self.log_str(2, "No backup selected");
            return None;
        }
        let idx = if self.backup_selected < n - 1 {
            self.backup_selected
        } else {
            n - 1
        };
        proof {
            assert(self@.backups[idx as int] == self.backups@[idx as int]@);
        }
        Some((port, string_of(self.backups[idx].as_str())))
    }

    /// Restoring `backup` to `port` finished.
    pub fn fw_restore_done(&mut self, backup: &str, port: &str, result: &crate::firmware::FwResult)
        ensures
            final(self)@ == run_line(
                old(self)@,
                *result,
                "Restored "@ + backup@ + " to "@ + port@,
                "Restore failed: "@,
            ),
    {
        if result.ok {
            let mut m = string_of("Restored ");
            push_str(&mut m, backup);
            push_str(&mut m, " to ");
            push_str(&mut m, port);
            self.log(1, m);
        } else {
            let mut m = string_of("Restore failed: ");
            let t = crate::text::trimmed(result.error.as_str());
            push_str(&mut m, t.as_str());
            self.log(3, m);
        }
    }

    /// The selected entry of the port list, kept inside it.
    pub fn selected_port(&self) -> (r: Option<&PortInfo>)
        ensures
            self@.ports.len() == 0 ==> r is None,
            self@.ports.len() > 0 ==> (r matches Some(p) && p@ == self@.ports[if self@.selected_port
                < self@.ports.len() - 1 {
                self@.selected_port as int
            } else {
                self@.ports.len() - 1
            }]),
    {
        let n = self.ports.len();
        if n == 0 {
            return None;
        }
        let idx = if self.selected_port < n - 1 {
            self.selected_port
        } else {
            n - 1
        };
        Some(&self.ports[idx])
    }
}

/// No device has a slave id above `max_slave`.
pub proof fn lemma_max_slave_bounds(devs: Seq<DeviceView>)
    ensures
        forall|j: int| 0 <= j < devs.len() ==> #[trigger] devs[j].slave_id <= max_slave(devs),
    decreases devs.len(),
{
    if devs.len() > 0 {
        lemma_max_slave_bounds(devs.drop_last());
        assert forall|j: int| 0 <= j < devs.len() implies #[trigger] devs[j].slave_id <= max_slave(devs) by {
            if j < devs.len() - 1 {
                assert(devs.drop_last()[j] == devs[j]);
            }
        }
    }
}

/// A device added from the front end gets a slave id above every slave id
/// already in use, so no two devices share one; the devices that were
/// there stay as they were.
pub proof fn lemma_added_device_is_fresh(v: AppView)
    requires
        max_slave(v.emu) < 255,
    ensures
        spec_add_device(v).emu.len() == v.emu.len() + 1,
        spec_add_device(v).emu.take(v.emu.len() as int) == v.emu,
        forall|j: int| 0 <= j < v.emu.len() ==> #[trigger] v.emu[j].slave_id < spec_add_device(v).emu.last().slave_id,
{
    lemma_max_slave_bounds(v.emu);
    assert(spec_add_device(v).emu.take(v.emu.len() as int) =~= v.emu);
}

/// Whatever the cursor is on, deleting from the front end never leaves the
/// emulator without a device (for a sensor list that fits in memory).
pub proof fn lemma_last_device_survives(v: AppView)
    requires
        v.emu.len() >= 1,
        sensor_rows_of(v.emu).len() <= usize::MAX,
    ensures
        spec_remove_selected(v).emu.len() >= 1,
{
    let rows = sensor_rows_of(v.emu);
    if v.sensor_selected < rows.len() {
        lemma_rows_valid(v.emu, v.emu.len(), v.sensor_selected as int);
    }
}

/// Moving the form focus by `dir` rows and back by `-dir` rows returns it
/// to where it was: the focus wraps around the five rows.
pub proof fn lemma_focus_round_trip(v: AppView, dir: i8)
    requires
        v.reg_focus < 5,
        v.sensor_focus < 5,
        dir > -128,
    ensures
        spec_move_focus(spec_move_focus(v, dir), (-dir) as i8) == v,
{
    let back = (-dir) as i8;
    assert(back as int == -(dir as int));
    let r = v.reg_focus as int;
    let s = v.sensor_focus as int;
    let d = dir as int;
    assert(((r + d) % 5 + -d) % 5 == r) by (nonlinear_arith)
        requires
            0 <= r < 5,
    ;
    assert(((s + d) % 5 + -d) % 5 == s) by (nonlinear_arith)
        requires
            0 <= s < 5,
    ;
}

/// Switching the sensor-management mode on and off again leaves the mode,
/// the devices and the log as they were.
pub proof fn lemma_manage_toggle_twice(v: AppView)
    ensures
        spec_toggle_sensor_manage(spec_toggle_sensor_manage(v)).sensor_manage == v.sensor_manage,
        spec_toggle_sensor_manage(spec_toggle_sensor_manage(v)).emu == v.emu,
        spec_toggle_sensor_manage(spec_toggle_sensor_manage(v)).logs == v.logs,
{
}

/// The log never grows past `LOG_CAP` lines, and the line just logged is
/// always its last.
pub proof fn lemma_log_bounded(v: AppView, level: u8, text: Seq<char>)
    requires
        v.logs.len() <= LOG_CAP,
    ensures
        with_log(v, level, text).logs.len() <= LOG_CAP,
        with_log(v, level, text).logs.last() == (LogView { level, text }),
{
}

impl App {
    /// Serves a request that reached the Modbus TCP test server, from the
    /// emulator: the reply frame, with the emulator updated by the request.
    /// `None`, with nothing changed, for a multiple write that would run
    /// past address 0xFFFF (the server drops that connection).
    pub fn serve_tcp(&mut self, tid: u16, unit: u8, pdu: &[u8]) -> (r: Option<Vec<u8>>)
        requires
            app_wf(old(self)@),
            pdu@.len() >= 1,
        ensures
            app_wf(final(self)@),
            crate::tcp::pdu_in_bounds(old(self)@.emu, unit, pdu@[0], pdu@.skip(1)) ==> {
                &&& r matches Some(f)
                &&& f@ == crate::tcp::mbap_frame(
                    tid,
                    unit,
                    crate::tcp::reply_pdu(
                        pdu@[0],
                        crate::tcp::spec_pdu_reply(old(self)@.emu, unit, pdu@[0], pdu@.skip(1)),
                    ),
                )
                &&& final(self)@ == (AppView {
                    emu: crate::tcp::spec_pdu_after(old(self)@.emu, unit, pdu@[0], pdu@.skip(1)),
                    ..old(self)@
                })
            },
            !crate::tcp::pdu_in_bounds(old(self)@.emu, unit, pdu@[0], pdu@.skip(1)) ==> r is None
                && final(self)@ == old(self)@,
    {
        if !crate::tcp::check_pdu_in_bounds(&self.emu, unit, pdu) {
            return None;
        }
        let ghost before = self@;
        let reply = crate::tcp::serve_request(&mut self.emu, tid, unit, pdu);
        proof {
            crate::tcp::lemma_pdu_after_keeps_sensors(before.emu, unit, pdu@[0], pdu@.skip(1));
            assert forall|i: int| 0 <= i < self@.emu.len() implies crate::emulator::sensors_wf(
                #[trigger] self@.emu[i].sensors,
            ) by {
                assert(self@.emu[i].sensors == before.emu[i].sensors);
            }
            assert(self@ =~= (AppView {
                emu: crate::tcp::spec_pdu_after(before.emu, unit, pdu@[0], pdu@.skip(1)),
                ..before
            }));
        }
        Some(reply)
    }
}

} // verus!
