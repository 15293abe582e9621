//! What each key press and mouse click does to the front end's state, and
//! which outside work it asks of the shell.

use crate::app_state::{
    chosen_backup, form_read_in_bounds, fw_target, max_slave, spec_add_device, spec_begin_edit,
    spec_disconnect_serial, spec_edit_backspace, spec_edit_char, spec_is_emu, spec_move_focus,
    spec_read_registers, spec_remove_selected, spec_selected_device, spec_sensor_nav, spec_toggle_coil,
    spec_toggle_emulator, spec_toggle_sensor_manage, spec_write_register, with_log, App, AppView, LogView,
    RegFormView, SensorFormView, SerialOp, sensor_rows_of,
};
use crate::emulator::DataType;
use crate::text::{push_str, string_of};
use crate::ui::{list_index_at, tab_at, tab_index, Tab, HEADER_ROWS};
use vstd::prelude::*;

verus! {

/// A key as the terminal reports it.
#[derive(Debug, Clone, Copy, PartialEq, Eq, Structural)]
pub enum Key {
    Char(char),
    Backspace,
    Enter,
    Esc,
    Tab,
    BackTab,
    F(u8),
    Up,
    Down,
    Left,
    Right,
    PageUp,
    PageDown,
    Delete,
    Other,
}

/// Outside work a key press asks of the shell.
#[derive(Debug, PartialEq)]
pub enum KeyAction {
    /// Nothing to do outside.
    Nothing,
    /// Restart the port scanner.
    StartScanner,
    /// Open a serial master on this port, then report `serial_connected`
    /// or `serial_failed`.
    ConnectSerial(String),
    /// Probe the selected port for a Modbus slave.
    ProbePort,
    /// Start or stop the Modbus TCP server.
    ToggleTcpServer,
    /// Connect the Modbus TCP master.
    ConnectTcp,
    /// Disconnect the Modbus TCP master.
    DisconnectTcp,
    /// Close the open serial master; when `stop_poller` is set, also stop
    /// the background poller of the serial or TCP source that was polled.
    CloseSerial { stop_poller: bool },
    /// Run this on the open serial master and report the result.
    Serial(SerialOp),
    /// Read the sensor form's numbers and call `add_sensor`.
    AddSensor,
    /// Run board-info on this port.
    BoardInfo(String),
    /// Back up the flash of this port.
    Backup(String),
    /// Flash the test image to this port.
    FlashTest(String),
    /// Restore this backup (second) to this port (first).
    Restore(String, String),
    /// Scroll the log, help or bus view by one step.
    Scroll(i8),
    /// Move the dashboard's selection by a page.
    PageDevices(i8),
}

/// Abstract content of a key action.
pub enum ActionView {
    Nothing,
    StartScanner,
    ConnectSerial(Seq<char>),
    ProbePort,
    ToggleTcpServer,
    ConnectTcp,
    DisconnectTcp,
    CloseSerial { stop_poller: bool },
    Serial(SerialOp),
    AddSensor,
    BoardInfo(Seq<char>),
    Backup(Seq<char>),
    FlashTest(Seq<char>),
    Restore(Seq<char>, Seq<char>),
    Scroll(i8),
    PageDevices(i8),
}

/// The abstract content of an action.
pub open spec fn action_view(a: KeyAction) -> ActionView {
    match a {
        KeyAction::Nothing => ActionView::Nothing,
        KeyAction::StartScanner => ActionView::StartScanner,
        KeyAction::ConnectSerial(p) => ActionView::ConnectSerial(p@),
        KeyAction::ProbePort => ActionView::ProbePort,
        KeyAction::ToggleTcpServer => ActionView::ToggleTcpServer,
        KeyAction::ConnectTcp => ActionView::ConnectTcp,
        KeyAction::DisconnectTcp => ActionView::DisconnectTcp,
        KeyAction::CloseSerial { stop_poller } => ActionView::CloseSerial { stop_poller },
        KeyAction::Serial(op) => ActionView::Serial(op),
        KeyAction::AddSensor => ActionView::AddSensor,
        KeyAction::BoardInfo(p) => ActionView::BoardInfo(p@),
        KeyAction::Backup(p) => ActionView::Backup(p@),
        KeyAction::FlashTest(p) => ActionView::FlashTest(p@),
        KeyAction::Restore(p, b) => ActionView::Restore(p@, b@),
        KeyAction::Scroll(d) => ActionView::Scroll(d),
        KeyAction::PageDevices(d) => ActionView::PageDevices(d),
    }
}

/// Whether a background poller runs: a source other than the in-process
/// emulator is polled.
pub open spec fn polls_outside(v: AppView) -> bool {
    v.source is Some && !spec_is_emu(v)
}

/// Up arrow or `k`.
pub open spec fn is_up(k: Key) -> bool {
    k == Key::Up || k == Key::Char('k')
}

/// Down arrow or `j`.
pub open spec fn is_down(k: Key) -> bool {
    k == Key::Down || k == Key::Char('j')
}

/// Keys that still act while a background task runs: quitting and
/// navigation.
pub open spec fn allowed_while_busy(k: Key) -> bool {
    k == Key::Char('q') || k == Key::Esc || k == Key::Tab || k == Key::BackTab || k == Key::F(1)
        || is_up(k) || is_down(k)
}

/// A serial operation as an action.
pub open spec fn serial_action(op: Option<SerialOp>) -> ActionView {
    match op {
        Some(o) => ActionView::Serial(o),
        None => ActionView::Nothing,
    }
}

/// A key while a form field is edited: characters are typed, backspace
/// deletes, Enter and Esc stop editing, other keys do nothing.
pub open spec fn spec_key_editing(v: AppView, k: Key) -> AppView {
    match k {
        Key::Char(c) => spec_edit_char(v, c),
        Key::Backspace => spec_edit_backspace(v),
        Key::Enter | Key::Esc => AppView { editing: None, ..v },
        _ => v,
    }
}

/// One step up a list of `n` entries (stays on the first).
pub open spec fn step_up(sel: usize, n: nat) -> usize {
    if n == 0 {
        sel
    } else if sel > 0 {
        (sel - 1) as usize
    } else {
        0
    }
}

/// One step down a list of `n` entries (stays on the last).
pub open spec fn step_down(sel: usize, n: nat) -> usize {
    if n == 0 {
        sel
    } else if sel + 1 < n - 1 {
        (sel + 1) as usize
    } else {
        (n - 1) as usize
    }
}

/// The Ports tab's keys.
pub open spec fn spec_key_ports(v: AppView, k: Key) -> (AppView, ActionView) {
    if k == Key::Char('c') {
        if v.ports.len() == 0 {
            (with_log(v, 2, "No ports found"@), ActionView::Nothing)
        } else {
            let i = if v.selected_port < v.ports.len() - 1 {
                v.selected_port as int
            } else {
                v.ports.len() - 1
            };
            (v, ActionView::ConnectSerial(v.ports[i].name))
        }
    } else if k == Key::Char('d') {
        let was = match v.serial_port {
            Some(p) => p,
            None => Seq::empty(),
        };
        (
            with_log(spec_disconnect_serial(v), 2, "Disconnected "@ + was),
            ActionView::CloseSerial { stop_poller: polls_outside(v) },
        )
    } else if k == Key::Char('p') {
        (v, ActionView::ProbePort)
    } else if k == Key::Char('t') {
        (v, ActionView::ToggleTcpServer)
    } else if k == Key::Char('y') {
        (v, ActionView::ConnectTcp)
    } else if k == Key::Char('o') {
        (v, ActionView::DisconnectTcp)
    } else if k == Key::Left || k == Key::Char('h') {
        (AppView { tcp_focus: 0, ..v }, ActionView::Nothing)
    } else if k == Key::Right || k == Key::Char('l') {
        (AppView { tcp_focus: 1, ..v }, ActionView::Nothing)
    } else if k == Key::Enter {
        (spec_begin_edit(v), ActionView::Nothing)
    } else if is_up(k) {
        (AppView { selected_port: step_up(v.selected_port, v.ports.len()), ..v }, ActionView::Nothing)
    } else if is_down(k) {
        (AppView { selected_port: step_down(v.selected_port, v.ports.len()), ..v }, ActionView::Nothing)
    } else if k == Key::Char('x') {
        if v.ports.len() == 0 {
            (v, ActionView::Nothing)
        } else {
            let i = if v.selected_port < v.ports.len() - 1 {
                v.selected_port as int
            } else {
                v.ports.len() - 1
            };
            (with_log(v, 2, "Manual probe of "@ + v.ports[i].name), ActionView::Nothing)
        }
    } else {
        (v, ActionView::Nothing)
    }
}

/// The Dashboard tab's keys.
pub open spec fn spec_key_dashboard(v: AppView, k: Key) -> (AppView, ActionView) {
    if is_up(k) {
        (
            if v.snapshot.len() == 0 {
                v
            } else {
                AppView { selected_device: step_up(v.selected_device, v.snapshot.len()), ..v }
            },
            ActionView::Nothing,
        )
    } else if is_down(k) {
        (
            if v.snapshot.len() == 0 {
                v
            } else {
                AppView { selected_device: step_down(v.selected_device, v.snapshot.len()), ..v }
            },
            ActionView::Nothing,
        )
    } else if k == Key::PageUp {
        (v, ActionView::PageDevices(-1i8))
    } else if k == Key::PageDown {
        (v, ActionView::PageDevices(1i8))
    } else if k == Key::Char(' ') {
        if v.snapshot.len() == 0 {
            (v, ActionView::Nothing)
        } else {
            let (w, op) = spec_toggle_coil(v, spec_selected_device(v), 0);
            (w, serial_action(op))
        }
    } else {
        (v, ActionView::Nothing)
    }
}

/// The Registers tab's keys.
pub open spec fn spec_key_registers(v: AppView, k: Key) -> (AppView, ActionView) {
    if k == Key::Char('r') {
        let (w, op) = spec_read_registers(v);
        (w, serial_action(op))
    } else if k == Key::Char('w') {
        let (w, op) = spec_write_register(v);
        (w, serial_action(op))
    } else if k == Key::Char('t') {
        (
            AppView { reg_form: RegFormView { reg_type: ((v.reg_form.reg_type + 1) % 3) as usize, ..v.reg_form }, ..v },
            ActionView::Nothing,
        )
    } else if is_up(k) {
        (spec_move_focus(v, -1i8), ActionView::Nothing)
    } else if is_down(k) {
        (spec_move_focus(v, 1i8), ActionView::Nothing)
    } else if k == Key::Enter {
        (spec_begin_edit(v), ActionView::Nothing)
    } else if k == Key::Char('1') || k == Key::Char('2') || k == Key::Char('3') {
        let t: usize = if k == Key::Char('1') {
            0
        } else if k == Key::Char('2') {
            1
        } else {
            2
        };
        (AppView { reg_form: RegFormView { reg_type: t, ..v.reg_form }, ..v }, ActionView::Nothing)
    } else {
        (v, ActionView::Nothing)
    }
}

/// The data type chosen by digit keys 1 to 6 on the Sensors tab.
pub open spec fn digit_kind(c: char) -> Option<DataType> {
    if c == '1' {
        Some(DataType::TemperatureC)
    } else if c == '2' {
        Some(DataType::PressureKPa)
    } else if c == '3' {
        Some(DataType::Flow)
    } else if c == '4' {
        Some(DataType::Test)
    } else if c == '5' {
        Some(DataType::LevelM)
    } else if c == '6' {
        Some(DataType::HumidityPct)
    } else {
        None
    }
}

/// The Sensors tab's keys.
pub open spec fn spec_key_sensors(v: AppView, k: Key) -> (AppView, ActionView) {
    if k matches Key::Char(c) && digit_kind(c) is Some {
        let c = k->Char_0;
        (AppView { sensor_form: SensorFormView { kind: digit_kind(c)->0, ..v.sensor_form }, ..v }, ActionView::Nothing)
    } else if k == Key::Char('m') {
        (spec_toggle_sensor_manage(v), ActionView::Nothing)
    } else if k == Key::Char('n') {
        (spec_add_device(v), ActionView::Nothing)
    } else if (k == Key::Char('d') || k == Key::Delete) && v.sensor_manage {
        (spec_remove_selected(v), ActionView::Nothing)
    } else if is_up(k) && v.sensor_manage {
        (spec_sensor_nav(v, -1i8), ActionView::Nothing)
    } else if is_down(k) && v.sensor_manage {
        (spec_sensor_nav(v, 1i8), ActionView::Nothing)
    } else if is_up(k) {
        (spec_move_focus(v, -1i8), ActionView::Nothing)
    } else if is_down(k) {
        (spec_move_focus(v, 1i8), ActionView::Nothing)
    } else if k == Key::Enter {
        (spec_begin_edit(v), ActionView::Nothing)
    } else if k == Key::Char('a') {
        (v, ActionView::AddSensor)
    } else {
        (v, ActionView::Nothing)
    }
}

/// A firmware action on the target port, or the warning when there is none.
pub open spec fn fw_action(v: AppView, mk: spec_fn(Seq<char>) -> ActionView) -> (AppView, ActionView) {
    match fw_target(v) {
        Some(p) => (v, mk(p)),
        None => (with_log(v, 2, "No port selected"@), ActionView::Nothing),
    }
}

/// The Firmware tab's keys.
pub open spec fn spec_key_firmware(v: AppView, k: Key) -> (AppView, ActionView) {
    if k == Key::Char('i') {
        fw_action(v, |p: Seq<char>| ActionView::BoardInfo(p))
    } else if k == Key::Char('b') || k == Key::Char('B') {
        fw_action(v, |p: Seq<char>| ActionView::Backup(p))
    } else if k == Key::Char('f') {
        fw_action(v, |p: Seq<char>| ActionView::FlashTest(p))
    } else if k == Key::Char('o') {
        match fw_target(v) {
            None => (with_log(v, 2, "No port selected"@), ActionView::Nothing),
            Some(p) => match chosen_backup(v) {
                None => (with_log(v, 2, "No backup selected"@), ActionView::Nothing),
                Some(b) => (v, ActionView::Restore(p, b)),
            },
        }
    } else if is_up(k) {
        (AppView { backup_selected: step_up(v.backup_selected, v.backups.len()), ..v }, ActionView::Nothing)
    } else if is_down(k) {
        (AppView { backup_selected: step_down(v.backup_selected, v.backups.len()), ..v }, ActionView::Nothing)
    } else {
        (v, ActionView::Nothing)
    }
}

/// Keys of the Log, Help and Bus tabs: scrolling, and on the Log tab
/// Enter clears the log.
pub open spec fn spec_key_views(v: AppView, k: Key) -> (AppView, ActionView) {
    if k == Key::Enter && v.tab == Tab::Log {
        (AppView { logs: seq![LogView { level: 0, text: "Log cleared"@ }], ..v }, ActionView::Nothing)
    } else if is_up(k) {
        (v, ActionView::Scroll(-1i8))
    } else if is_down(k) {
        (v, ActionView::Scroll(1i8))
    } else {
        (v, ActionView::Nothing)
    }
}

/// The tab-specific handling of a key, for tabs with their own keys.
pub open spec fn spec_key_tab(v: AppView, k: Key) -> (AppView, ActionView) {
    if v.tab == Tab::Ports {
        spec_key_ports(v, k)
    } else if v.tab == Tab::Dashboard {
        spec_key_dashboard(v, k)
    } else if v.tab == Tab::Registers {
        spec_key_registers(v, k)
    } else if v.tab == Tab::Sensors {
        spec_key_sensors(v, k)
    } else if v.tab == Tab::Firmware {
        spec_key_firmware(v, k)
    } else {
        spec_key_views(v, k)
    }
}

/// Whether the tab-specific handling acts on key `k`; keys it ignores fall
/// through to Ctrl+C.
pub open spec fn tab_uses_key(v: AppView, k: Key) -> bool {
    if v.tab == Tab::Ports {
        k == Key::Char('c') || k == Key::Char('d') || k == Key::Char('p') || k == Key::Char('t') || k
            == Key::Char('y') || k == Key::Char('o') || k == Key::Left || k == Key::Char('h') || k == Key::Right
            || k == Key::Char('l') || k == Key::Enter || is_up(k) || is_down(k) || k == Key::Char('x')
    } else if v.tab == Tab::Dashboard {
        is_up(k) || is_down(k) || k == Key::PageUp || k == Key::PageDown || k == Key::Char(' ')
    } else if v.tab == Tab::Registers {
        k == Key::Char('r') || k == Key::Char('w') || k == Key::Char('t') || is_up(k) || is_down(k) || k
            == Key::Enter || k == Key::Char('1') || k == Key::Char('2') || k == Key::Char('3')
    } else if v.tab == Tab::Sensors {
        (k matches Key::Char(c) && digit_kind(c) is Some) || k == Key::Char('m') || k == Key::Char('n') || (
        (k == Key::Char('d') || k == Key::Delete) && v.sensor_manage) || is_up(k) || is_down(k) || k
            == Key::Enter || k == Key::Char('a')
    } else if v.tab == Tab::Firmware {
        k == Key::Char('i') || k == Key::Char('b') || k == Key::Char('B') || k == Key::Char('f') || k
            == Key::Char('o') || is_up(k) || is_down(k)
    } else {
        (k == Key::Enter && v.tab == Tab::Log) || is_up(k) || is_down(k)
    }
}

/// A key press: what it does to the state and which outside work it asks
/// for. Editing takes every key; a running task lets only quitting and
/// navigation through; then come the global keys (Esc, q, Tab, Shift+Tab,
/// F1, e, R), the current tab's keys, and Ctrl+C.
pub open spec fn spec_handle_key(v: AppView, k: Key, ctrl: bool) -> (AppView, ActionView) {
    if v.editing is Some {
        (spec_key_editing(v, k), ActionView::Nothing)
    } else if v.busy && !allowed_while_busy(k) {
        (v, ActionView::Nothing)
    } else if k == Key::Esc && v.sensor_manage && v.tab == Tab::Sensors {
        (AppView { sensor_manage: false, ..v }, ActionView::Nothing)
    } else if k == Key::Char('q') || k == Key::Esc {
        (AppView { should_quit: true, ..v }, ActionView::Nothing)
    } else if k == Key::Tab {
        (AppView { tab: tab_at(((tab_index(v.tab) + 1) % 8) as nat), ..v }, ActionView::Nothing)
    } else if k == Key::BackTab {
        (AppView { tab: tab_at(((tab_index(v.tab) + 7) % 8) as nat), ..v }, ActionView::Nothing)
    } else if k == Key::F(1) {
        (AppView { tab: Tab::Help, ..v }, ActionView::Nothing)
    } else if k == Key::Char('e') {
        (
            spec_toggle_emulator(v),
            if spec_is_emu(v) {
                ActionView::Nothing
            } else {
                ActionView::CloseSerial { stop_poller: polls_outside(v) }
            },
        )
    } else if k == Key::Char('R') {
        (with_log(v, 1, "Rescan requested"@), ActionView::StartScanner)
    } else if tab_uses_key(v, k) {
        spec_key_tab(v, k)
    } else if ctrl && k == Key::Char('c') {
        (AppView { should_quit: true, ..v }, ActionView::Nothing)
    } else {
        (v, ActionView::Nothing)
    }
}

/// The key presses the front end serves: all but adding a device when slave
/// address 255 is taken (no next address exists) and a register read of the
/// emulator past address 0xFFFF.
pub open spec fn key_safe(v: AppView, k: Key) -> bool {
    let acts = v.editing is None && !(v.busy && !allowed_while_busy(k)) && !(k == Key::Esc) && !(k
        == Key::Char('q'));
    &&& (acts && v.tab == Tab::Sensors && k == Key::Char('n')) ==> max_slave(v.emu) < 255 && v.emu.len()
        < usize::MAX
    &&& (acts && v.tab == Tab::Registers && k == Key::Char('r') && spec_is_emu(v)) ==> form_read_in_bounds(v)
}

fn is_up_key(k: Key) -> (r: bool)
    ensures
        r == is_up(k),
{
    k == Key::Up || k == Key::Char('k')
}

fn is_down_key(k: Key) -> (r: bool)
    ensures
        r == is_down(k),
{
    k == Key::Down || k == Key::Char('j')
}

fn digit_kind_of(c: char) -> (r: Option<DataType>)
    ensures
        r == digit_kind(c),
{
    if c == '1' {
        Some(DataType::TemperatureC)
    } else if c == '2' {
        Some(DataType::PressureKPa)
    } else if c == '3' {
        Some(DataType::Flow)
    } else if c == '4' {
        Some(DataType::Test)
    } else if c == '5' {
        Some(DataType::LevelM)
    } else if c == '6' {
        Some(DataType::HumidityPct)
    } else {
        None
    }
}

fn serial_key_action(op: Option<SerialOp>) -> (r: KeyAction)
    ensures
        action_view(r) == serial_action(op),
{
    match op {
        Some(o) => KeyAction::Serial(o),
        None => KeyAction::Nothing,
    }
}

fn step_up_exec(sel: usize, n: usize) -> (r: usize)
    ensures
        r == step_up(sel, n as nat),
{
    if n == 0 {
        sel
    } else if sel > 0 {
        sel - 1
    } else {
        0
    }
}

fn step_down_exec(sel: usize, n: usize) -> (r: usize)
    ensures
        r == step_down(sel, n as nat),
{
    if n == 0 {
        sel
    } else if sel < n - 1 && sel + 1 < n - 1 {
        sel + 1
    } else {
        n - 1
    }
}

/// The emulator's sensors are untouched by register and coil writes.
proof fn lemma_emu_write_wf(v: AppView, kind: usize, slave: u8, addr: u16, value: u16)
    requires
        crate::emulator::emu_wf(v.emu),
    ensures
        crate::emulator::emu_wf(crate::app_state::emu_write(v.emu, kind, slave, addr, value).0),
{
    let d2 = crate::app_state::emu_write(v.emu, kind, slave, addr, value).0;
    crate::emulator::lemma_find_slave_from(v.emu, slave, 0);
    assert(d2.len() == v.emu.len());
    assert forall|i: int| 0 <= i < d2.len() implies crate::emulator::sensors_wf(#[trigger] d2[i].sensors) by {
        assert(d2[i].sensors == v.emu[i].sensors);
    }
}

impl App {
    fn key_ports(&mut self, k: Key) -> (r: KeyAction)
        requires
            old(self)@.tab == Tab::Ports,
        ensures
            (final(self)@, action_view(r)) == spec_key_ports(old(self)@, k),
    {
        if k == Key::Char('c') {
            match self.connect_selected_port() {
                Some(name) => KeyAction::ConnectSerial(name),
                None => KeyAction::Nothing,
            }
        } else if k == Key::Char('d') {
            let mut m = string_of("Disconnected ");
            match &self.serial_port {
                Some(p) => push_str(&mut m, p.as_str()),
                None => {},
            }
            let stop_poller = self.source.is_some() && !self.is_emu();
            self.disconnect_serial();
            self.log(2, m);
            KeyAction::CloseSerial { stop_poller }
        } else if k == Key::Char('p') {
            KeyAction::ProbePort
        } else if k == Key::Char('t') {
            KeyAction::ToggleTcpServer
        } else if k == Key::Char('y') {
            KeyAction::ConnectTcp
        } else if k == Key::Char('o') {
            KeyAction::DisconnectTcp
        } else if k == Key::Left || k == Key::Char('h') {
            self.tcp_focus = 0;
            proof {
                assert(final(self)@ =~= spec_key_ports(old(self)@, k).0);
            }
            KeyAction::Nothing
        } else if k == Key::Right || k == Key::Char('l') {
            self.tcp_focus = 1;
            proof {
                assert(final(self)@ =~= spec_key_ports(old(self)@, k).0);
            }
            KeyAction::Nothing
        } else if k == Key::Enter {
            self.begin_edit_focused();
            KeyAction::Nothing
        } else if is_up_key(k) {
            self.selected_port = step_up_exec(self.selected_port, self.ports.len());
            proof {
                assert(final(self)@ =~= spec_key_ports(old(self)@, k).0);
            }
            KeyAction::Nothing
        } else if is_down_key(k) {
            self.selected_port = step_down_exec(self.selected_port, self.ports.len());
            proof {
                assert(final(self)@ =~= spec_key_ports(old(self)@, k).0);
            }
            KeyAction::Nothing
        } else if k == Key::Char('x') {
            let name = match self.selected_port() {
                Some(p) => Some(string_of(p.name.as_str())),
                None => None,
            };
            match name {
                Some(n) => {
                    let mut m = string_of("Manual probe of ");
                    push_str(&mut m, n.as_str());
                    self.log(2, m);
                },
                None => {},
            }
            KeyAction::Nothing
        } else {
            KeyAction::Nothing
        }
    }

    fn key_dashboard(&mut self, k: Key) -> (r: KeyAction)
        requires
            old(self)@.tab == Tab::Dashboard,
            app_wf_emu(old(self)@),
        ensures
            (final(self)@, action_view(r)) == spec_key_dashboard(old(self)@, k),
            app_wf_emu(final(self)@),
    {
        if is_up_key(k) {
            self.select_dev_prev();
            KeyAction::Nothing
        } else if is_down_key(k) {
            self.select_dev_next();
            KeyAction::Nothing
        } else if k == Key::PageUp {
            KeyAction::PageDevices(-1)
        } else if k == Key::PageDown {
            KeyAction::PageDevices(1)
        } else if k == Key::Char(' ') {
            if self.snapshot.len() == 0 {
                KeyAction::Nothing
            } else {
                let di = self.selected_device();
                proof {
                    let slave = crate::app_state::snapshot_slave(old(self)@, di);
                    lemma_emu_write_wf(old(self)@, 2, slave, 0, 0);
                    lemma_emu_write_wf(old(self)@, 2, slave, 0, 1);
                }
                let op = self.toggle_coil(di, 0);
                serial_key_action(op)
            }
        } else {
            KeyAction::Nothing
        }
    }

    fn key_registers(&mut self, k: Key) -> (r: KeyAction)
        requires
            old(self)@.tab == Tab::Registers,
            crate::app_state::app_wf(old(self)@),
            k == Key::Char('r') && spec_is_emu(old(self)@) ==> form_read_in_bounds(old(self)@),
        ensures
            (final(self)@, action_view(r)) == spec_key_registers(old(self)@, k),
            crate::app_state::app_wf(final(self)@),
    {
        if k == Key::Char('r') {
            let op = self.read_registers();
            serial_key_action(op)
        } else if k == Key::Char('w') {
            proof {
                let f = old(self)@.reg_form;
                lemma_emu_write_wf(
                    old(self)@,
                    f.reg_type,
                    crate::app_state::form_slave(f),
                    crate::app_state::form_addr(f),
                    crate::app_state::form_value(f),
                );
            }
            let op = self.write_register();
            serial_key_action(op)
        } else if k == Key::Char('t') {
            self.reg_form.reg_type = (self.reg_form.reg_type + 1) % 3;
            proof {
                assert(final(self)@ =~= spec_key_registers(old(self)@, k).0);
            }
            KeyAction::Nothing
        } else if is_up_key(k) {
            self.move_focus(-1);
            KeyAction::Nothing
        } else if is_down_key(k) {
            self.move_focus(1);
            KeyAction::Nothing
        } else if k == Key::Enter {
            self.begin_edit_focused();
            KeyAction::Nothing
        } else if k == Key::Char('1') || k == Key::Char('2') || k == Key::Char('3') {
            self.reg_form.reg_type = if k == Key::Char('1') {
                0
            } else if k == Key::Char('2') {
                1
            } else {
                2
            };
            proof {
                assert(final(self)@ =~= spec_key_registers(old(self)@, k).0);
            }
            KeyAction::Nothing
        } else {
            KeyAction::Nothing
        }
    }

    fn key_sensors(&mut self, k: Key) -> (r: KeyAction)
        requires
            old(self)@.tab == Tab::Sensors,
            crate::app_state::app_wf(old(self)@),
            k == Key::Char('n') ==> max_slave(old(self)@.emu) < 255 && old(self)@.emu.len() < usize::MAX,
        ensures
            (final(self)@, action_view(r)) == spec_key_sensors(old(self)@, k),
            crate::app_state::app_wf(final(self)@),
    {
        let kind = match k {
            Key::Char(c) => digit_kind_of(c),
            _ => None,
        };
        if kind.is_some() {
            self.sensor_form.kind = kind.unwrap();
            proof {
                assert(final(self)@ =~= spec_key_sensors(old(self)@, k).0);
            }
            KeyAction::Nothing
        } else if k == Key::Char('m') {
            self.toggle_sensor_manage();
            KeyAction::Nothing
        } else if k == Key::Char('n') {
            self.add_device();
            KeyAction::Nothing
        } else if (k == Key::Char('d') || k == Key::Delete) && self.sensor_manage {
            self.remove_selected();
            KeyAction::Nothing
        } else if is_up_key(k) && self.sensor_manage {
            self.sensor_nav(-1);
            KeyAction::Nothing
        } else if is_down_key(k) && self.sensor_manage {
            self.sensor_nav(1);
            KeyAction::Nothing
        } else if is_up_key(k) {
            self.move_focus(-1);
            KeyAction::Nothing
        } else if is_down_key(k) {
            self.move_focus(1);
            KeyAction::Nothing
        } else if k == Key::Enter {
            self.begin_edit_focused();
            KeyAction::Nothing
        } else if k == Key::Char('a') {
            KeyAction::AddSensor
        } else {
            KeyAction::Nothing
        }
    }

    fn key_firmware(&mut self, k: Key) -> (r: KeyAction)
        requires
            old(self)@.tab == Tab::Firmware,
        ensures
            (final(self)@, action_view(r)) == spec_key_firmware(old(self)@, k),
    {
        if k == Key::Char('i') {
            match self.fw_target_port() {
                Some(p) => KeyAction::BoardInfo(p),
                None => KeyAction::Nothing,
            }
        } else if k == Key::Char('b') || k == Key::Char('B') {
            match self.fw_target_port() {
                Some(p) => KeyAction::Backup(p),
                None => KeyAction::Nothing,
            }
        } else if k == Key::Char('f') {
            match self.fw_target_port() {
                Some(p) => KeyAction::FlashTest(p),
                None => KeyAction::Nothing,
            }
        } else if k == Key::Char('o') {
            match self.fw_restore_choice() {
                Some((p, b)) => KeyAction::Restore(p, b),
                None => KeyAction::Nothing,
            }
        } else if is_up_key(k) {
            self.backup_selected = step_up_exec(self.backup_selected, self.backups.len());
            proof {
                assert(final(self)@ =~= spec_key_firmware(old(self)@, k).0);
            }
            KeyAction::Nothing
        } else if is_down_key(k) {
            self.backup_selected = step_down_exec(self.backup_selected, self.backups.len());
            proof {
                assert(final(self)@ =~= spec_key_firmware(old(self)@, k).0);
            }
            KeyAction::Nothing
        } else {
            KeyAction::Nothing
        }
    }

    fn key_views(&mut self, k: Key) -> (r: KeyAction)
        requires
            old(self)@.tab != Tab::Ports,
            old(self)@.tab != Tab::Dashboard,
            old(self)@.tab != Tab::Registers,
            old(self)@.tab != Tab::Sensors,
            old(self)@.tab != Tab::Firmware,
        ensures
            (final(self)@, action_view(r)) == spec_key_views(old(self)@, k),
    {
        if k == Key::Enter && self.tab == Tab::Log {
            self.logs.clear();
            self.log_str(0, "Log cleared");
            proof {
                assert(final(self)@.logs =~= seq![LogView { level: 0, text: "Log cleared"@ }]);
                assert(final(self)@ =~= spec_key_views(old(self)@, k).0);
            }
            KeyAction::Nothing
        } else if is_up_key(k) {
            KeyAction::Scroll(-1)
        } else if is_down_key(k) {
            KeyAction::Scroll(1)
        } else {
            KeyAction::Nothing
        }
    }

    fn tab_uses(&self, k: Key) -> (r: bool)
        ensures
            r == tab_uses_key(self@, k),
    {
        let up = is_up_key(k);
        let down = is_down_key(k);
        if self.tab == Tab::Ports {
            k == Key::Char('c') || k == Key::Char('d') || k == Key::Char('p') || k == Key::Char('t') || k
                == Key::Char('y') || k == Key::Char('o') || k == Key::Left || k == Key::Char('h') || k
                == Key::Right || k == Key::Char('l') || k == Key::Enter || up || down || k == Key::Char('x')
        } else if self.tab == Tab::Dashboard {
            up || down || k == Key::PageUp || k == Key::PageDown || k == Key::Char(' ')
        } else if self.tab == Tab::Registers {
            k == Key::Char('r') || k == Key::Char('w') || k == Key::Char('t') || up || down || k == Key::Enter
                || k == Key::Char('1') || k == Key::Char('2') || k == Key::Char('3')
        } else if self.tab == Tab::Sensors {
            let digit = match k {
                Key::Char(c) => digit_kind_of(c).is_some(),
                _ => false,
            };
            digit || k == Key::Char('m') || k == Key::Char('n') || ((k == Key::Char('d') || k == Key::Delete)
                && self.sensor_manage) || up || down || k == Key::Enter || k == Key::Char('a')
        } else if self.tab == Tab::Firmware {
            k == Key::Char('i') || k == Key::Char('b') || k == Key::Char('B') || k == Key::Char('f') || k
                == Key::Char('o') || up || down
        } else {
            (k == Key::Enter && self.tab == Tab::Log) || up || down
        }
    }

    /// Whether a key press is one the front end serves (see `key_safe`);
    /// the shell fails on the others before handing them on.
    pub fn key_safe(&self, k: Key) -> (r: bool)
        ensures
            r == key_safe(self@, k),
    {
        let allowed = k == Key::Char('q') || k == Key::Esc || k == Key::Tab || k == Key::BackTab || k
            == Key::F(1) || is_up_key(k) || is_down_key(k);
        let acts = self.editing.is_none() && !(self.busy && !allowed) && k != Key::Esc && k != Key::Char('q');
        if acts && self.tab == Tab::Sensors && k == Key::Char('n') {
            let devs = self.emu.devices();
            if devs.len() == usize::MAX {
                return false;
            }
            let mut max: u8 = 0;
            let mut i: usize = 0;
            while i < devs.len()
                invariant
                    i <= devs@.len(),
                    devs@.map_values(|d: crate::emulator::EmuDevice| d@) == self@.emu,
                    max == max_slave(self@.emu.take(i as int)),
                decreases devs@.len() - i,
            {
                proof {
                    assert(devs@[i as int]@ == self@.emu[i as int]);
                    assert(self@.emu.take(i + 1).drop_last() =~= self@.emu.take(i as int));
                }
                if devs[i].slave_id > max {
                    max = devs[i].slave_id;
                }
                i = i + 1;
            }
            proof {
                assert(self@.emu.take(i as int) =~= self@.emu);
            }
            return max < 255;
        }
        if acts && self.tab == Tab::Registers && k == Key::Char('r') && self.is_emu() {
            return self.form_read_in_bounds();
        }
        true
    }

    /// Serves a key press (see `spec_handle_key`) and returns the outside
    /// work it asks for.
    pub fn handle_key(&mut self, k: Key, ctrl: bool) -> (r: KeyAction)
        requires
            crate::app_state::app_wf(old(self)@),
            key_safe(old(self)@, k),
        ensures
            (final(self)@, action_view(r)) == spec_handle_key(old(self)@, k, ctrl),
            crate::app_state::app_wf(final(self)@),
    {
        if self.editing.is_some() {
            match k {
                Key::Char(c) => self.edit_char(c),
                Key::Backspace => self.edit_backspace(),
                Key::Enter | Key::Esc => self.cancel_edit(),
                _ => {},
            }
            return KeyAction::Nothing;
        }
        let allowed = k == Key::Char('q') || k == Key::Esc || k == Key::Tab || k == Key::BackTab || k
            == Key::F(1) || is_up_key(k) || is_down_key(k);
        if self.busy && !allowed {
            return KeyAction::Nothing;
        }
        if k == Key::Esc && self.sensor_manage && self.tab == Tab::Sensors {
            self.sensor_manage = false;
            proof {
                assert(final(self)@ =~= spec_handle_key(old(self)@, k, ctrl).0);
            }
            return KeyAction::Nothing;
        }
        if k == Key::Char('q') || k == Key::Esc {
            self.should_quit = true;
            proof {
                assert(final(self)@ =~= spec_handle_key(old(self)@, k, ctrl).0);
            }
            return KeyAction::Nothing;
        }
        if k == Key::Tab {
            self.tab = self.tab.next();
            proof {
                assert(final(self)@ =~= spec_handle_key(old(self)@, k, ctrl).0);
            }
            return KeyAction::Nothing;
        }
        if k == Key::BackTab {
            self.tab = self.tab.prev();
            proof {
                assert(final(self)@ =~= spec_handle_key(old(self)@, k, ctrl).0);
            }
            return KeyAction::Nothing;
        }
        if k == Key::F(1) {
            self.tab = Tab::Help;
            proof {
                assert(final(self)@ =~= spec_handle_key(old(self)@, k, ctrl).0);
            }
            return KeyAction::Nothing;
        }
        if k == Key::Char('e') {
            let was_emu = self.is_emu();
            let stop_poller = self.source.is_some() && !was_emu;
            self.toggle_emulator();
            if was_emu {
                return KeyAction::Nothing;
            }
            return KeyAction::CloseSerial { stop_poller };
        }
        if k == Key::Char('R') {
            self.log_str(1, "Rescan requested");
            return KeyAction::StartScanner;
        }
        if self.tab_uses(k) {
            if self.tab == Tab::Ports {
                return self.key_ports(k);
            } else if self.tab == Tab::Dashboard {
                return self.key_dashboard(k);
            } else if self.tab == Tab::Registers {
                return self.key_registers(k);
            } else if self.tab == Tab::Sensors {
                return self.key_sensors(k);
            } else if self.tab == Tab::Firmware {
                return self.key_firmware(k);
            } else {
                return self.key_views(k);
            }
        }
        if ctrl && k == Key::Char('c') {
            self.should_quit = true;
            proof {
                assert(final(self)@ =~= spec_handle_key(old(self)@, k, ctrl).0);
            }
            return KeyAction::Nothing;
        }
        KeyAction::Nothing
    }
}

/// The emulator part of the front end's well-formedness.
pub open spec fn app_wf_emu(v: AppView) -> bool {
    crate::emulator::emu_wf(v.emu)
}

/// The dashboard's channel and coil counts per device.
pub open spec fn channel_counts(v: AppView) -> Seq<usize> {
    v.snapshot.map_values(|d: crate::worker::SnapshotView| d.channels.len() as usize)
}

/// Coil counts per dashboard device.
pub open spec fn coil_counts(v: AppView) -> Seq<usize> {
    v.snapshot.map_values(|d: crate::worker::SnapshotView| d.coils.len() as usize)
}

/// The list entry under body row `y` of a bordered list of `n` entries.
pub open spec fn list_entry(y: int, n: nat) -> Option<usize> {
    if 1 <= y && y - 1 < n {
        Some((y - 1) as usize)
    } else {
        None
    }
}

/// The sensor form row under content row `cr` of its panel.
pub open spec fn sensor_field_at(cr: int) -> Option<usize> {
    if cr == 3 {
        Some(0)
    } else if cr == 4 {
        Some(1)
    } else if cr == 6 {
        Some(2)
    } else if cr == 7 {
        Some(3)
    } else if cr == 8 {
        Some(4)
    } else {
        None
    }
}

/// A left click on terminal row `row`, column `col` of a terminal `width`
/// columns wide, below the tab bar: picks the list entry or form row under
/// it; nothing while a field is edited.
pub open spec fn spec_left_click(v: AppView, row: u16, col: u16, width: u16) -> AppView {
    let y: int = if row >= HEADER_ROWS {
        row - HEADER_ROWS
    } else {
        0
    };
    let w = width as int;
    if v.editing is Some {
        v
    } else if v.tab == Tab::Ports {
        match list_entry(y, v.ports.len()) {
            Some(i) => AppView { selected_port: i, ..v },
            None => v,
        }
    } else if v.tab == Tab::Dashboard {
        let map = if channel_counts(v).len() == 0 && v.source is None {
            Seq::<Option<usize>>::empty()
        } else {
            crate::ui::dashboard_rows(channel_counts(v), coil_counts(v), channel_counts(v).len())
        };
        if col < w * 3 / 5 && y > 0 && y - 1 < map.len() && map[y - 1] is Some {
            AppView { selected_device: map[y - 1]->0, ..v }
        } else {
            v
        }
    } else if v.tab == Tab::Sensors {
        if col < w / 2 {
            match list_entry(y, sensor_rows_of(v.emu).len()) {
                Some(i) => AppView { sensor_selected: i, ..v },
                None => v,
            }
        } else {
            match sensor_field_at(if y >= 1 { y - 1 } else { 0 }) {
                Some(f) => AppView { sensor_focus: f, ..v },
                None => v,
            }
        }
    } else if v.tab == Tab::Registers {
        if col < w * 3 / 5 && y > 0 && 4 <= y - 1 <= 8 {
            AppView { reg_focus: (y - 1 - 4) as usize, ..v }
        } else {
            v
        }
    } else if v.tab == Tab::Firmware {
        if col >= (if w >= w * 2 / 5 { w - w * 2 / 5 } else { 0 }) {
            match list_entry(y, v.backups.len()) {
                Some(i) => AppView { backup_selected: i, ..v },
                None => v,
            }
        } else {
            v
        }
    } else {
        v
    }
}

impl App {
    /// Which device each body row of the dashboard's device list selects
    /// (see `ui::dashboard_rows_for_devices`).
    pub fn dashboard_rows(&self) -> (r: Vec<Option<usize>>)
        ensures
            r@ == (if channel_counts(self@).len() == 0 && self@.source is None {
                Seq::<Option<usize>>::empty()
            } else {
                crate::ui::dashboard_rows(channel_counts(self@), coil_counts(self@), channel_counts(self@).len())
            }),
    {
        let mut channels: Vec<usize> = Vec::new();
        let mut coils: Vec<usize> = Vec::new();
        let mut i: usize = 0;
        while i < self.snapshot.len()
            invariant
                i <= self.snapshot@.len(),
                channels@ =~= channel_counts(self@).take(i as int),
                coils@ =~= coil_counts(self@).take(i as int),
            decreases self.snapshot@.len() - i,
        {
            proof {
                assert(self@.snapshot[i as int] == self.snapshot@[i as int]@);
            }
            channels.push(self.snapshot[i].channels.len());
            coils.push(self.snapshot[i].coils.len());
            i = i + 1;
        }
        proof {
            assert(channels@ =~= channel_counts(self@));
            assert(coils@ =~= coil_counts(self@));
        }
        crate::ui::dashboard_rows_for_devices(channels.as_slice(), coils.as_slice(), self.source.is_some())
    }

    /// A click on the tab bar at column `col`: switches to the tab under it.
    pub fn click_tab(&mut self, col: u16)
        ensures
            final(self)@ == (match crate::ui::tab_at_col_spec(col) {
                Some(i) => AppView { tab: tab_at(i as nat), ..old(self)@ },
                None => old(self)@,
            }),
    {
        match crate::ui::tab_at_col(col) {
            Some(i) => {
                self.tab = Tab::from_index(i);
                proof {
                    crate::ui::lemma_tab_at_col_unique(col, i as nat);
                }
            },
            None => {
                proof {
                    crate::ui::lemma_tab_at_col_none(col);
                }
            },
        }
        proof {
            assert(final(self)@ =~= (match crate::ui::tab_at_col_spec(col) {
                Some(i) => AppView { tab: tab_at(i as nat), ..old(self)@ },
                None => old(self)@,
            }));
        }
    }

    /// A left click in the body (see `spec_left_click`); `width` is the
    /// terminal's width.
    pub fn left_click(&mut self, row: u16, col: u16, width: u16)
        requires
            width <= 21845,
            crate::app_state::app_wf(old(self)@),
        ensures
            final(self)@ == spec_left_click(old(self)@, row, col, width),
            crate::app_state::app_wf(final(self)@),
    {
        if self.editing.is_some() {
            return;
        }
        let y: u16 = if row >= HEADER_ROWS {
            row - HEADER_ROWS
        } else {
            0
        };
        let w = width;
        if self.tab == Tab::Ports {
            match list_index_at(y, self.ports.len()) {
                Some(i) => {
                    self.selected_port = i;
                },
                None => {},
            }
        } else if self.tab == Tab::Dashboard {
            let left_w: u16 = w * 3 / 5;
            if col < left_w && y > 0 {
                let map = self.dashboard_rows();
                let k = (y - 1) as usize;
                if k < map.len() {
                    match map[k] {
                        Some(di) => {
                            self.selected_device = di;
                        },
                        None => {},
                    }
                }
            }
        } else if self.tab == Tab::Sensors {
            let left_w: u16 = w / 2;
            if col < left_w {
                let n = self.sensor_rows().len();
                match list_index_at(y, n) {
                    Some(i) => {
                        self.sensor_selected = i;
                    },
                    None => {},
                }
            } else {
                let cr: u16 = if y >= 1 {
                    y - 1
                } else {
                    0
                };
                let f: Option<usize> = if cr == 3 {
                    Some(0)
                } else if cr == 4 {
                    Some(1)
                } else if cr == 6 {
                    Some(2)
                } else if cr == 7 {
                    Some(3)
                } else if cr == 8 {
                    Some(4)
                } else {
                    None
                };
                match f {
                    Some(f) => {
                        self.sensor_focus = f;
                    },
                    None => {},
                }
            }
        } else if self.tab == Tab::Registers {
            let left_w: u16 = w * 3 / 5;
            if col < left_w && y > 0 {
                let cr = y - 1;
                if 4 <= cr && cr <= 8 {
                    self.reg_focus = (cr - 4) as usize;
                }
            }
        } else if self.tab == Tab::Firmware {
            let right_w: u16 = w * 2 / 5;
            let edge: u16 = if w >= right_w {
                w - right_w
            } else {
                0
            };
            if col >= edge {
                match list_index_at(y, self.backups.len()) {
                    Some(i) => {
                        self.backup_selected = i;
                    },
                    None => {},
                }
            }
        }
        proof {
            assert(final(self)@ =~= spec_left_click(old(self)@, row, col, width));
        }
    }
}

} // verus!
