//! What each view of the interface shows: lines of text pieces, each with
//! the tone it is drawn in. The terminal front end lays these lines out;
//! which text appears, in which order and how it is marked is decided here.

use crate::app_state::{opt_view, spec_is_emu, App, AppView, FieldEdit, PortInfo, PortView};
use crate::text::{dec, push_dec, push_str, string_of};
use crate::ui::{spec_title, Tab};
use crate::app_state::spec_selected_device;
use crate::emulator::{DeviceView, SensorView};
use crate::trace::TraceEntry;
use crate::worker::{Channel, ChannelView, DeviceSnapshot, SnapshotView};
use vstd::prelude::*;

verus! {

/// How a piece of text is drawn.
#[derive(Debug, Clone, Copy, PartialEq, Eq, Structural)]
pub enum Tone {
    Plain,
    Dim,
    Gray,
    White,
    WhiteBold,
    Cyan,
    CyanBold,
    Yellow,
    YellowBold,
    Green,
    GreenBold,
    Red,
    RedBold,
    MagentaBold,
    /// A field being typed into.
    Editing,
}

/// A piece of text and its tone.
pub struct Span {
    pub text: String,
    pub tone: Tone,
}

/// Abstract content of a piece: its characters and tone.
pub type SpanView = (Seq<char>, Tone);

impl View for Span {
    type V = SpanView;

    open spec fn view(&self) -> SpanView {
        (self.text@, self.tone)
    }
}

/// The content of a line.
pub open spec fn line_view(l: Seq<Span>) -> Seq<SpanView> {
    l.map_values(|s: Span| s@)
}

/// The content of a list of lines.
pub open spec fn lines_view(ls: Seq<Vec<Span>>) -> Seq<Seq<SpanView>> {
    ls.map_values(|l: Vec<Span>| line_view(l@))
}

fn span(text: &str, tone: Tone) -> (r: Span)
    ensures
        r@ == (text@, tone),
{
    Span { text: string_of(text), tone }
}

fn owned(text: String, tone: Tone) -> (r: Span)
    ensures
        r@ == (text@, tone),
{
    Span { text, tone }
}

fn line1(s: Span) -> (r: Vec<Span>)
    ensures
        line_view(r@) == seq![s@],
{
    let mut l: Vec<Span> = Vec::new();
    l.push(s);
    proof {
        assert(line_view(l@) =~= seq![s@]);
    }
    l
}

fn line2(a: Span, b: Span) -> (r: Vec<Span>)
    ensures
        line_view(r@) == seq![a@, b@],
{
    let mut l: Vec<Span> = Vec::new();
    l.push(a);
    l.push(b);
    proof {
        assert(line_view(l@) =~= seq![a@, b@]);
    }
    l
}

fn push_line(out: &mut Vec<Vec<Span>>, l: Vec<Span>)
    ensures
        lines_view(final(out)@) == lines_view(old(out)@).push(line_view(l@)),
{
    let ghost before = out@;
    out.push(l);
    proof {
        assert(lines_view(out@) =~= lines_view(before).push(line_view(l@)));
    }
}

/// A line of one piece.
pub open spec fn one(text: Seq<char>, tone: Tone) -> Seq<SpanView> {
    seq![(text, tone)]
}

/// An empty line.
pub open spec fn blank() -> Seq<SpanView> {
    one(""@, Tone::Plain)
}

/// `s` padded with spaces on the right to `w` characters, as `{:w}` prints
/// a string.
pub open spec fn pad_right(s: Seq<char>, w: nat) -> Seq<char> {
    if s.len() >= w {
        s
    } else {
        s + Seq::new((w - s.len()) as nat, |i: int| ' ')
    }
}

/// `s` padded with spaces on the left to `w` characters, as `{:>w}` prints
/// a string.
pub open spec fn pad_left(s: Seq<char>, w: nat) -> Seq<char> {
    if s.len() >= w {
        s
    } else {
        Seq::new((w - s.len()) as nat, |i: int| ' ') + s
    }
}

fn spaces(n: usize) -> (r: String)
    ensures
        r@ == Seq::new(n as nat, |i: int| ' '),
{
    let mut s = String::new();
    let mut k: usize = 0;
    while k < n
        invariant
            k <= n,
            s@ == Seq::new(k as nat, |i: int| ' '),
        decreases n - k,
    {
        crate::text::push_char(&mut s, ' ');
        k = k + 1;
        proof {
            assert(s@ =~= Seq::new(k as nat, |i: int| ' '));
        }
    }
    s
}

/// Appends `t` padded on the right to `w` characters.
fn push_padded_right(s: &mut String, t: &str, w: usize)
    ensures
        final(s)@ == old(s)@ + pad_right(t@, w as nat),
{
    push_str(s, t);
    let n = t.unicode_len();
    if n < w {
        let sp = spaces(w - n);
        push_str(s, sp.as_str());
    }
    proof {
        assert(final(s)@ =~= old(s)@ + pad_right(t@, w as nat));
    }
}

/// Appends `t` padded on the left to `w` characters.
fn push_padded_left(s: &mut String, t: &str, w: usize)
    ensures
        final(s)@ == old(s)@ + pad_left(t@, w as nat),
{
    let n = t.unicode_len();
    if n < w {
        let sp = spaces(w - n);
        push_str(s, sp.as_str());
    }
    push_str(s, t);
    proof {
        assert(final(s)@ =~= old(s)@ + pad_left(t@, w as nat));
    }
}

/// Lines of the help page.
pub const HELP_LINES: usize = 75;

/// Line `i` of the help page: its text and how it is shown.
pub open spec fn help_line(i: int) -> (Seq<char>, Tone) {
    if i == 0 {
        (""@, Tone::Plain)
    } else if i == 1 {
        (" GLOBAL"@, Tone::CyanBold)
    } else if i == 2 {
        ("   [Tab]/[Shift-Tab]  — switch tab (powered by the tab bar above)"@, Tone::Plain)
    } else if i == 3 {
        ("   [q]/[Esc]/[Ctrl-C] — quit"@, Tone::Plain)
    } else if i == 4 {
        ("   [e]                — toggle in-process emulator (test server)"@, Tone::Plain)
    } else if i == 5 {
        ("   [R]                — rescan ports (hotplug)"@, Tone::Plain)
    } else if i == 6 {
        ("   [F1]               — this help"@, Tone::Plain)
    } else if i == 7 {
        ("   Mouse: click a tab to switch; click a list row/field to select;"@, Tone::Plain)
    } else if i == 8 {
        ("          scroll wheel to move selection or scroll Log/Help"@, Tone::Plain)
    } else if i == 9 {
        (""@, Tone::Plain)
    } else if i == 10 {
        (" DASHBOARD"@, Tone::CyanBold)
    } else if i == 11 {
        ("   [↑/↓]  or [k/j]    — select device (▸ marker)"@, Tone::Plain)
    } else if i == 12 {
        ("   [space]            — toggle coil 0 of the selected device"@, Tone::Plain)
    } else if i == 13 {
        ("   Mouse wheel        — scroll the whole sensor list (line by line)"@, Tone::Plain)
    } else if i == 14 {
        (""@, Tone::Plain)
    } else if i == 15 {
        (" PORTS"@, Tone::CyanBold)
    } else if i == 16 {
        ("   [↑/↓]  or [k/j]    — select port"@, Tone::Plain)
    } else if i == 17 {
        ("   [c]                — connect serial port"@, Tone::Plain)
    } else if i == 18 {
        ("   [d]                — disconnect serial"@, Tone::Plain)
    } else if i == 19 {
        ("   [p]                — probe Modbus on selected port"@, Tone::Plain)
    } else if i == 20 {
        ("   [t]                — toggle Modbus TCP server on 127.0.0.1:1502"@, Tone::Plain)
    } else if i == 21 {
        ("                      (serves the emulator register map — the future Zynq"@, Tone::Plain)
    } else if i == 22 {
        ("                       can read the same data over Ethernet, no RS-485)"@, Tone::Plain)
    } else if i == 23 {
        ("   Modbus TCP master (right pane):"@, Tone::Plain)
    } else if i == 24 {
        ("   [←/→]              — focus Host / Port field"@, Tone::Plain)
    } else if i == 25 {
        ("   [enter]            — edit focused field"@, Tone::Plain)
    } else if i == 26 {
        ("   [y]                — connect to the host:port (unit = Slave ID of"@, Tone::Plain)
    } else if i == 27 {
        ("                        register editor)"@, Tone::Plain)
    } else if i == 28 {
        ("   [o]                — disconnect TCP master"@, Tone::Plain)
    } else if i == 29 {
        ("   (master polls input 0..63 as 32×float32 channels, coils, holding —"@, Tone::Plain)
    } else if i == 30 {
        ("    so you can watch your AI-32 over Ethernet instead of RS-485)"@, Tone::Plain)
    } else if i == 31 {
        (""@, Tone::Plain)
    } else if i == 32 {
        (" REGISTERS"@, Tone::CyanBold)
    } else if i == 33 {
        ("   [1]/[2]/[3]        — choose type: input / holding / coil"@, Tone::Plain)
    } else if i == 34 {
        ("   [↑/↓]              — focus field (Slave/Start/Count/Write addr/Write value)"@, Tone::Plain)
    } else if i == 35 {
        ("   [enter]            — start editing the focused field"@, Tone::Plain)
    } else if i == 36 {
        ("   [r]                — read block"@, Tone::Plain)
    } else if i == 37 {
        ("   [w]                — write single register/coil (uses Write addr/value)"@, Tone::Plain)
    } else if i == 38 {
        ("   [t]                — cycle type (input/holding/coil)"@, Tone::Plain)
    } else if i == 39 {
        (""@, Tone::Plain)
    } else if i == 40 {
        (" SENSORS"@, Tone::CyanBold)
    } else if i == 41 {
        ("   [1..6]             — pick sensor type (1=T°C 2=Pressure 3=Flow 4=Test 5=Level 6=%RH)"@, Tone::Plain)
    } else if i == 42 {
        ("   [↑/↓] + [enter]    — edit Device idx / Name / Base / Amplitude / Period"@, Tone::Plain)
    } else if i == 43 {
        ("   [a]                — add sensor to emulator"@, Tone::Plain)
    } else if i == 44 {
        ("   [n]                — add new (empty) slave device"@, Tone::Plain)
    } else if i == 45 {
        ("   [m]                — manage devices & sensors (list becomes active)"@, Tone::Plain)
    } else if i == 46 {
        ("   [↑/↓] in manage    — move cursor over device rows and sensors"@, Tone::Plain)
    } else if i == 47 {
        ("   [d] in manage      — delete device (◆) or sensor (●) under cursor"@, Tone::Plain)
    } else if i == 48 {
        ("   [esc] in manage    — leave manage mode"@, Tone::Plain)
    } else if i == 49 {
        ("   (last device is never deleted — emulator must serve something)"@, Tone::Plain)
    } else if i == 50 {
        (""@, Tone::Plain)
    } else if i == 51 {
        (" EDITING a field"@, Tone::MagentaBold)
    } else if i == 52 {
        ("   Type                — insert characters"@, Tone::Plain)
    } else if i == 53 {
        ("   [Backspace]        — delete last character"@, Tone::Plain)
    } else if i == 54 {
        ("   [enter] or [esc]   — finish / cancel editing"@, Tone::Plain)
    } else if i == 55 {
        ("   (hint: 'registers' editor teaches you real Modbus addressing)"@, Tone::Plain)
    } else if i == 56 {
        (" LOG"@, Tone::CyanBold)
    } else if i == 57 {
        ("   [Enter]            — clear log"@, Tone::Plain)
    } else if i == 58 {
        (""@, Tone::Plain)
    } else if i == 59 {
        (" FIRMWARE"@, Tone::CyanBold)
    } else if i == 60 {
        ("   [i]  board-info    [f] flash test FW   [b] backup   [o] restore"@, Tone::Plain)
    } else if i == 61 {
        ("   [↑/↓]              — select backup file"@, Tone::Plain)
    } else if i == 62 {
        (""@, Tone::Plain)
    } else if i == 63 {
        (" BUS (Modbus frame inspector)"@, Tone::MagentaBold)
    } else if i == 64 {
        ("   Shows every request (→) and response (←) as raw bytes with the"@, Tone::Plain)
    } else if i == 65 {
        ("   parsed function name and round-trip time. RTU frames carry the CRC;"@, Tone::Plain)
    } else if i == 66 {
        ("   TCP frames (clients on Ports→[t], traffic of the TCP master too) are"@, Tone::Plain)
    } else if i == 67 {
        ("   marked \"TCP\" and shown with their MBAP header instead (tid proto len unit)."@, Tone::Plain)
    } else if i == 68 {
        ("   [↑/↓] or wheel     — walk history; scroll down to return to the live tail."@, Tone::Plain)
    } else if i == 69 {
        ("   In emulator mode the frames are built from real device state, so the"@, Tone::Plain)
    } else if i == 70 {
        ("   wire bytes look identical to the real bus. Read them like the real master"@, Tone::Plain)
    } else if i == 71 {
        ("   (Zynq/PLC) will: [slave] [fc] [data...] [crc_lo crc_hi]."@, Tone::Plain)
    } else if i == 72 {
        (""@, Tone::Plain)
    } else if i == 73 {
        (" Idea: hot-plug any ESP32 — it appears in Ports, get probed,"@, Tone::Dim)
    } else {
        (" becomes connected, and you see its live registers."@, Tone::Dim)
    }
}

fn help_entry(i: usize) -> (r: (&'static str, Tone))
    requires
        i < HELP_LINES,
    ensures
        (r.0@, r.1) == help_line(i as int),
{
    if i == 0 {
        ("", Tone::Plain)
    } else if i == 1 {
        (" GLOBAL", Tone::CyanBold)
    } else if i == 2 {
        ("   [Tab]/[Shift-Tab]  — switch tab (powered by the tab bar above)", Tone::Plain)
    } else if i == 3 {
        ("   [q]/[Esc]/[Ctrl-C] — quit", Tone::Plain)
    } else if i == 4 {
        ("   [e]                — toggle in-process emulator (test server)", Tone::Plain)
    } else if i == 5 {
        ("   [R]                — rescan ports (hotplug)", Tone::Plain)
    } else if i == 6 {
        ("   [F1]               — this help", Tone::Plain)
    } else if i == 7 {
        ("   Mouse: click a tab to switch; click a list row/field to select;", Tone::Plain)
    } else if i == 8 {
        ("          scroll wheel to move selection or scroll Log/Help", Tone::Plain)
    } else if i == 9 {
        ("", Tone::Plain)
    } else if i == 10 {
        (" DASHBOARD", Tone::CyanBold)
    } else if i == 11 {
        ("   [↑/↓]  or [k/j]    — select device (▸ marker)", Tone::Plain)
    } else if i == 12 {
        ("   [space]            — toggle coil 0 of the selected device", Tone::Plain)
    } else if i == 13 {
        ("   Mouse wheel        — scroll the whole sensor list (line by line)", Tone::Plain)
    } else if i == 14 {
        ("", Tone::Plain)
    } else if i == 15 {
        (" PORTS", Tone::CyanBold)
    } else if i == 16 {
        ("   [↑/↓]  or [k/j]    — select port", Tone::Plain)
    } else if i == 17 {
        ("   [c]                — connect serial port", Tone::Plain)
    } else if i == 18 {
        ("   [d]                — disconnect serial", Tone::Plain)
    } else if i == 19 {
        ("   [p]                — probe Modbus on selected port", Tone::Plain)
    } else if i == 20 {
        ("   [t]                — toggle Modbus TCP server on 127.0.0.1:1502", Tone::Plain)
    } else if i == 21 {
        ("                      (serves the emulator register map — the future Zynq", Tone::Plain)
    } else if i == 22 {
        ("                       can read the same data over Ethernet, no RS-485)", Tone::Plain)
    } else if i == 23 {
        ("   Modbus TCP master (right pane):", Tone::Plain)
    } else if i == 24 {
        ("   [←/→]              — focus Host / Port field", Tone::Plain)
    } else if i == 25 {
        ("   [enter]            — edit focused field", Tone::Plain)
    } else if i == 26 {
        ("   [y]                — connect to the host:port (unit = Slave ID of", Tone::Plain)
    } else if i == 27 {
        ("                        register editor)", Tone::Plain)
    } else if i == 28 {
        ("   [o]                — disconnect TCP master", Tone::Plain)
    } else if i == 29 {
        ("   (master polls input 0..63 as 32×float32 channels, coils, holding —", Tone::Plain)
    } else if i == 30 {
        ("    so you can watch your AI-32 over Ethernet instead of RS-485)", Tone::Plain)
    } else if i == 31 {
        ("", Tone::Plain)
    } else if i == 32 {
        (" REGISTERS", Tone::CyanBold)
    } else if i == 33 {
        ("   [1]/[2]/[3]        — choose type: input / holding / coil", Tone::Plain)
    } else if i == 34 {
        ("   [↑/↓]              — focus field (Slave/Start/Count/Write addr/Write value)", Tone::Plain)
    } else if i == 35 {
        ("   [enter]            — start editing the focused field", Tone::Plain)
    } else if i == 36 {
        ("   [r]                — read block", Tone::Plain)
    } else if i == 37 {
        ("   [w]                — write single register/coil (uses Write addr/value)", Tone::Plain)
    } else if i == 38 {
        ("   [t]                — cycle type (input/holding/coil)", Tone::Plain)
    } else if i == 39 {
        ("", Tone::Plain)
    } else if i == 40 {
        (" SENSORS", Tone::CyanBold)
    } else if i == 41 {
        ("   [1..6]             — pick sensor type (1=T°C 2=Pressure 3=Flow 4=Test 5=Level 6=%RH)", Tone::Plain)
    } else if i == 42 {
        ("   [↑/↓] + [enter]    — edit Device idx / Name / Base / Amplitude / Period", Tone::Plain)
    } else if i == 43 {
        ("   [a]                — add sensor to emulator", Tone::Plain)
    } else if i == 44 {
        ("   [n]                — add new (empty) slave device", Tone::Plain)
    } else if i == 45 {
        ("   [m]                — manage devices & sensors (list becomes active)", Tone::Plain)
    } else if i == 46 {
        ("   [↑/↓] in manage    — move cursor over device rows and sensors", Tone::Plain)
    } else if i == 47 {
        ("   [d] in manage      — delete device (◆) or sensor (●) under cursor", Tone::Plain)
    } else if i == 48 {
        ("   [esc] in manage    — leave manage mode", Tone::Plain)
    } else if i == 49 {
        ("   (last device is never deleted — emulator must serve something)", Tone::Plain)
    } else if i == 50 {
        ("", Tone::Plain)
    } else if i == 51 {
        (" EDITING a field", Tone::MagentaBold)
    } else if i == 52 {
        ("   Type                — insert characters", Tone::Plain)
    } else if i == 53 {
        ("   [Backspace]        — delete last character", Tone::Plain)
    } else if i == 54 {
        ("   [enter] or [esc]   — finish / cancel editing", Tone::Plain)
    } else if i == 55 {
        ("   (hint: 'registers' editor teaches you real Modbus addressing)", Tone::Plain)
    } else if i == 56 {
        (" LOG", Tone::CyanBold)
    } else if i == 57 {
        ("   [Enter]            — clear log", Tone::Plain)
    } else if i == 58 {
        ("", Tone::Plain)
    } else if i == 59 {
        (" FIRMWARE", Tone::CyanBold)
    } else if i == 60 {
        ("   [i]  board-info    [f] flash test FW   [b] backup   [o] restore", Tone::Plain)
    } else if i == 61 {
        ("   [↑/↓]              — select backup file", Tone::Plain)
    } else if i == 62 {
        ("", Tone::Plain)
    } else if i == 63 {
        (" BUS (Modbus frame inspector)", Tone::MagentaBold)
    } else if i == 64 {
        ("   Shows every request (→) and response (←) as raw bytes with the", Tone::Plain)
    } else if i == 65 {
        ("   parsed function name and round-trip time. RTU frames carry the CRC;", Tone::Plain)
    } else if i == 66 {
        ("   TCP frames (clients on Ports→[t], traffic of the TCP master too) are", Tone::Plain)
    } else if i == 67 {
        ("   marked \"TCP\" and shown with their MBAP header instead (tid proto len unit).", Tone::Plain)
    } else if i == 68 {
        ("   [↑/↓] or wheel     — walk history; scroll down to return to the live tail.", Tone::Plain)
    } else if i == 69 {
        ("   In emulator mode the frames are built from real device state, so the", Tone::Plain)
    } else if i == 70 {
        ("   wire bytes look identical to the real bus. Read them like the real master", Tone::Plain)
    } else if i == 71 {
        ("   (Zynq/PLC) will: [slave] [fc] [data...] [crc_lo crc_hi].", Tone::Plain)
    } else if i == 72 {
        ("", Tone::Plain)
    } else if i == 73 {
        (" Idea: hot-plug any ESP32 — it appears in Ports, get probed,", Tone::Dim)
    } else {
        (" becomes connected, and you see its live registers.", Tone::Dim)
    }
}

/// The help page, one piece per line.
pub fn help_lines() -> (r: Vec<Vec<Span>>)
    ensures
        lines_view(r@) == Seq::new(HELP_LINES as nat, |i: int| seq![help_line(i)]),
{
    let mut out: Vec<Vec<Span>> = Vec::new();
    let mut i: usize = 0;
    while i < HELP_LINES
        invariant
            i <= HELP_LINES,
            lines_view(out@) == Seq::new(i as nat, |k: int| seq![help_line(k)]),
        decreases HELP_LINES - i,
    {
        let (t, tone) = help_entry(i);
        push_line(&mut out, line1(span(t, tone)));
        i = i + 1;
        proof {
            assert(lines_view(out@) =~= Seq::new(i as nat, |k: int| seq![help_line(k)]));
        }
    }
    out
}

/// The footer's hint for the current tab.
pub open spec fn spec_tab_hint(tab: Tab, manage: bool) -> Seq<char> {
    match tab {
        Tab::Dashboard => "[↑↓] select  [PgUp/PgDn ▾] page  [space] pump"@,
        Tab::Ports => "[↑↓] select  [c] connect  [d] disconnect  [p] probe  [t] TCP-server"@,
        Tab::Registers => "[↑↓] focus  [enter] edit  [r] read  [w] write  [t] type"@,
        Tab::Sensors => if manage {
            "[↑↓] move  [d] delete device (◆) or sensor (●)  [esc] done"@
        } else {
            "[↑↓] focus  [enter] edit  [1..6] type  [a] add  [n] new slave  [m] manage  [d] delete"@
        },
        Tab::Firmware => "[i] board-info  [f] flash  [b] backup  [o] restore"@,
        Tab::Bus => "[↑↓/wheel] scroll history (auto-follows newest)"@,
        Tab::Log => "[↑↓/wheel] scroll  [enter] clear"@,
        Tab::Help => "[↑↓/wheel] scroll"@,
    }
}

/// The footer: the global keys, then the current tab's hint.
pub open spec fn spec_footer(tab: Tab, manage: bool) -> Seq<Seq<SpanView>> {
    seq![
        seq![
            (" [q] quit  "@, Tone::Dim),
            ("[Tab] next  "@, Tone::Dim),
            ("[e] toggle emu  "@, Tone::Dim),
            ("[R] rescan  "@, Tone::Dim),
            ("[F1] help"@, Tone::Dim),
        ],
        one("   "@ + spec_tab_hint(tab, manage), Tone::Yellow),
    ]
}

fn tab_hint(tab: Tab, manage: bool) -> (r: &'static str)
    ensures
        r@ == spec_tab_hint(tab, manage),
{
    match tab {
        Tab::Dashboard => "[↑↓] select  [PgUp/PgDn ▾] page  [space] pump",
        Tab::Ports => "[↑↓] select  [c] connect  [d] disconnect  [p] probe  [t] TCP-server",
        Tab::Registers => "[↑↓] focus  [enter] edit  [r] read  [w] write  [t] type",
        Tab::Sensors => if manage {
            "[↑↓] move  [d] delete device (◆) or sensor (●)  [esc] done"
        } else {
            "[↑↓] focus  [enter] edit  [1..6] type  [a] add  [n] new slave  [m] manage  [d] delete"
        },
        Tab::Firmware => "[i] board-info  [f] flash  [b] backup  [o] restore",
        Tab::Bus => "[↑↓/wheel] scroll history (auto-follows newest)",
        Tab::Log => "[↑↓/wheel] scroll  [enter] clear",
        Tab::Help => "[↑↓/wheel] scroll",
    }
}

impl App {
    /// The footer lines.
    pub fn footer_lines(&self) -> (r: Vec<Vec<Span>>)
        ensures
            lines_view(r@) == spec_footer(self.tab, self.sensor_manage),
    {
        let mut out: Vec<Vec<Span>> = Vec::new();
        let mut g: Vec<Span> = Vec::new();
        g.push(span(" [q] quit  ", Tone::Dim));
        g.push(span("[Tab] next  ", Tone::Dim));
        g.push(span("[e] toggle emu  ", Tone::Dim));
        g.push(span("[R] rescan  ", Tone::Dim));
        g.push(span("[F1] help", Tone::Dim));
        proof {
            assert(line_view(g@) =~= spec_footer(self.tab, self.sensor_manage)[0]);
        }
        push_line(&mut out, g);
        let mut h = string_of("   ");
        push_str(&mut h, tab_hint(self.tab, self.sensor_manage));
        push_line(&mut out, line1(owned(h, Tone::Yellow)));
        proof {
            assert(lines_view(out@) =~= spec_footer(self.tab, self.sensor_manage));
        }
        out
    }
}

/// A form field: its label right-aligned in 14 columns, then its value;
/// the field being typed into is marked with ■, the focused one with ←.
pub open spec fn spec_field_line(label: Seq<char>, value: Seq<char>, focused: bool, editing: bool) -> Seq<
    SpanView,
> {
    seq![
        (" "@ + pad_left(label, 14) + " : "@, Tone::Dim),
        (value + if editing {
            " ■"@
        } else if focused {
            "  ←"@
        } else {
            ""@
        }, if editing {
            Tone::Editing
        } else if focused {
            Tone::YellowBold
        } else {
            Tone::White
        }),
    ]
}

fn field_line(label: &str, value: &str, focused: bool, editing: bool) -> (r: Vec<Span>)
    ensures
        line_view(r@) == spec_field_line(label@, value@, focused, editing),
{
    let mut head = string_of(" ");
    push_padded_left(&mut head, label, 14);
    push_str(&mut head, " : ");
    let mut body = string_of(value);
    let tone = if editing {
        push_str(&mut body, " ■");
        Tone::Editing
    } else if focused {
        push_str(&mut body, "  ←");
        Tone::YellowBold
    } else {
        Tone::White
    };
    proof {
        assert(body@ =~= value@ + if editing {
            " ■"@
        } else if focused {
            "  ←"@
        } else {
            ""@
        }) by {
            reveal_strlit("");
        }
    }
    line2(owned(head, Tone::Dim), owned(body, tone))
}

/// Whether a source key names a Modbus TCP master (`tcp://host:port`).
pub open spec fn is_tcp_key(k: Seq<char>) -> bool {
    k.len() >= 6 && k.take(6) == "tcp://"@
}

/// What the header says is being polled.
pub open spec fn spec_pipeline(v: AppView) -> Seq<char> {
    if spec_is_emu(v) {
        "EMULATOR"@
    } else if v.source matches Some(k) && is_tcp_key(k) {
        "TCP master → "@ + v.source->0.skip(6)
    } else if v.source is Some {
        match v.serial_port {
            Some(p) => p,
            None => "SERIAL"@,
        }
    } else {
        "NOT CONNECTED"@
    }
}

/// The header's status line: tab, what is polled, the tick, the poll
/// state (the last error, or how many devices answered), and the TCP
/// server's address when it runs.
pub open spec fn spec_status(v: AppView, server: Option<Seq<char>>) -> Seq<char> {
    " "@ + spec_title(v.tab) + " — "@ + spec_pipeline(v) + " | tick="@ + dec(v.tick as nat) + " | poll: "@
        + match v.last_poll_error {
        Some(e) => e,
        None => dec(v.snapshot.len()) + " devices"@,
    } + match server {
        Some(a) => " | TCP server:"@ + a,
        None => ""@,
    }
}

impl App {
    fn pipeline(&self) -> (r: String)
        ensures
            r@ == spec_pipeline(self@),
    {
        if self.is_emu() {
            return string_of("EMULATOR");
        }
        match &self.source {
            Some(k) => {
                proof {
                    reveal_strlit("tcp://");
                }
                if crate::text::starts_with(k.as_str(), "tcp://") {
                    let cs = crate::text::chars_of(k.as_str());
                    let mut s = string_of("TCP master → ");
                    let rest = crate::text::string_from(cs.as_slice(), 6, cs.len());
                    push_str(&mut s, rest.as_str());
                    proof {
                        assert(cs@.subrange(6, cs@.len() as int) =~= k@.skip(6));
                    }
                    s
                } else {
                    match &self.serial_port {
                        Some(p) => string_of(p.as_str()),
                        None => string_of("SERIAL"),
                    }
                }
            },
            None => string_of("NOT CONNECTED"),
        }
    }

    /// The header's status line (see `spec_status`); `server` is the TCP
    /// server's address when it runs.
    pub fn status_text(&self, server: Option<&str>) -> (r: String)
        ensures
            r@ == spec_status(self@, match server {
                Some(a) => Some(a@),
                None => None,
            }),
    {
        let mut s = string_of(" ");
        push_str(&mut s, self.tab.title());
        push_str(&mut s, " — ");
        let p = self.pipeline();
        push_str(&mut s, p.as_str());
        push_str(&mut s, " | tick=");
        push_dec(&mut s, self.tick);
        push_str(&mut s, " | poll: ");
        match &self.last_poll_error {
            Some(e) => push_str(&mut s, e.as_str()),
            None => {
                push_dec(&mut s, self.snapshot.len() as u64);
                push_str(&mut s, " devices");
            },
        }
        match server {
            Some(a) => {
                push_str(&mut s, " | TCP server:");
                push_str(&mut s, a);
            },
            None => {},
        }
        proof {
            reveal_strlit("");
            assert(s@ =~= spec_status(self@, match server {
                Some(a) => Some(a@),
                None => None,
            }));
        }
        s
    }
}

/// The formatted values handed in for a list of rows, as characters.
pub open spec fn texts_view(v: Seq<Vec<String>>) -> Seq<Seq<Seq<char>>> {
    v.map_values(|r: Vec<String>| r@.map_values(|s: String| s@))
}

/// The box the dashboard shows while there is no data and no connection.
pub open spec fn no_data_notice() -> Seq<Seq<SpanView>> {
    seq![
        one(" ╭──────────────────────────────────────────╮"@, Tone::Dim),
        one(" │  No data. Start the test server ([e])    │"@, Tone::Dim),
        one(" │  or connect an ESP32 ([c] on Ports tab)   │"@, Tone::Dim),
        one(" ╰──────────────────────────────────────────╯"@, Tone::Dim),
    ]
}

/// The header of a device on the dashboard: marker, slave id and name,
/// then its source; the selected device is highlighted.
pub open spec fn device_header(d: SnapshotView, sel: bool) -> Seq<SpanView> {
    seq![
        (" "@ + (if sel {
            "▸"@
        } else {
            " "@
        }) + " ◆ Slave "@ + dec(d.slave_id as nat) + ": "@ + d.name, if sel {
            Tone::YellowBold
        } else if d.source == "EMU"@ {
            Tone::CyanBold
        } else {
            Tone::GreenBold
        }),
        ("   ["@ + d.source + "]"@ + (if sel {
            "  ← active"@
        } else {
            ""@
        }), if sel {
            Tone::Yellow
        } else {
            Tone::Dim
        }),
    ]
}

/// A channel of the dashboard: label in 6 columns, the formatted value,
/// unit in 3 columns.
pub open spec fn channel_line(c: ChannelView, value: Seq<char>) -> Seq<SpanView> {
    one("   "@ + pad_right(c.label, 6) + " "@ + value + " "@ + pad_right(c.unit, 3), Tone::White)
}

/// Coil `ci` of a device on the dashboard; on the selected device, coil 0
/// carries the hint of the key that toggles it.
pub open spec fn coil_line(ci: int, on: bool, sel: bool) -> Seq<SpanView> {
    seq![
        ("   Coil "@ + dec(ci as nat) + ": "@ + (if on {
            "● ON "@
        } else {
            "○ OFF"@
        }), if on {
            Tone::GreenBold
        } else {
            Tone::RedBold
        }),
        (if sel && ci == 0 {
            "  [space]  ◀ toggles this coil"@
        } else {
            ""@
        }, Tone::Dim),
    ]
}

/// The lines of one device on the dashboard.
pub open spec fn device_lines(d: SnapshotView, sel: bool, values: Seq<Seq<char>>) -> Seq<Seq<SpanView>> {
    seq![blank(), device_header(d, sel)] + Seq::new(
        d.channels.len(),
        |k: int| channel_line(d.channels[k], values[k]),
    ) + if d.coils.len() > 0 {
        seq![blank(), one("   Coils:"@, Tone::Yellow)] + Seq::new(
            d.coils.len(),
            |ci: int| coil_line(ci, d.coils[ci], sel),
        )
    } else {
        Seq::empty()
    }
}

/// The lines of the first `n` devices.
pub open spec fn devices_lines(devs: Seq<SnapshotView>, sel: int, values: Seq<Seq<Seq<char>>>, n: nat) -> Seq<
    Seq<SpanView>,
>
    decreases n,
{
    if n == 0 {
        Seq::empty()
    } else {
        devices_lines(devs, sel, values, (n - 1) as nat) + device_lines(devs[n - 1], n - 1 == sel, values[n - 1])
    }
}

/// The dashboard's device list: the notice while there is no data and no
/// connection, then every device of the last snapshot; `values` are the
/// channel values as the front end formats them.
pub open spec fn spec_dashboard_lines(v: AppView, values: Seq<Seq<Seq<char>>>) -> Seq<Seq<SpanView>> {
    (if v.snapshot.len() == 0 && v.source is None {
        no_data_notice()
    } else {
        Seq::empty()
    }) + devices_lines(v.snapshot, spec_selected_device(v) as int, values, v.snapshot.len())
}

fn device_header_line(d: &DeviceSnapshot, sel: bool) -> (r: Vec<Span>)
    ensures
        line_view(r@) == device_header(d@, sel),
{
    let mut a = string_of(" ");
    push_str(&mut a, if sel {
        "▸"
    } else {
        " "
    });
    push_str(&mut a, " ◆ Slave ");
    push_dec(&mut a, d.slave_id as u64);
    push_str(&mut a, ": ");
    push_str(&mut a, d.name.as_str());
    let emu = crate::text::str_eq(d.source.as_str(), "EMU");
    let ta = if sel {
        Tone::YellowBold
    } else if emu {
        Tone::CyanBold
    } else {
        Tone::GreenBold
    };
    let mut b = string_of("   [");
    push_str(&mut b, d.source.as_str());
    push_str(&mut b, "]");
    if sel {
        push_str(&mut b, "  ← active");
    }
    let tb = if sel {
        Tone::Yellow
    } else {
        Tone::Dim
    };
    proof {
        reveal_strlit("");
        assert(a@ =~= " "@ + (if sel {
            "▸"@
        } else {
            " "@
        }) + " ◆ Slave "@ + dec(d@.slave_id as nat) + ": "@ + d@.name);
        assert(b@ =~= "   ["@ + d@.source + "]"@ + (if sel {
            "  ← active"@
        } else {
            ""@
        }));
    }
    line2(owned(a, ta), owned(b, tb))
}

fn channel_row(c: &Channel, value: &str) -> (r: Vec<Span>)
    ensures
        line_view(r@) == channel_line(c@, value@),
{
    let mut s = string_of("   ");
    push_padded_right(&mut s, c.label.as_str(), 6);
    push_str(&mut s, " ");
    push_str(&mut s, value);
    push_str(&mut s, " ");
    push_padded_right(&mut s, c.unit.as_str(), 3);
    proof {
        assert(s@ =~= "   "@ + pad_right(c@.label, 6) + " "@ + value@ + " "@ + pad_right(c@.unit, 3));
    }
    line1(owned(s, Tone::White))
}

fn coil_row(ci: usize, on: bool, sel: bool) -> (r: Vec<Span>)
    ensures
        line_view(r@) == coil_line(ci as int, on, sel),
{
    let mut a = string_of("   Coil ");
    push_dec(&mut a, ci as u64);
    push_str(&mut a, ": ");
    push_str(&mut a, if on {
        "● ON "
    } else {
        "○ OFF"
    });
    let hint = if sel && ci == 0 {
        "  [space]  ◀ toggles this coil"
    } else {
        ""
    };
    proof {
        assert(a@ =~= "   Coil "@ + dec(ci as nat) + ": "@ + (if on {
            "● ON "@
        } else {
            "○ OFF"@
        }));
    }
    line2(owned(a, if on {
        Tone::GreenBold
    } else {
        Tone::RedBold
    }), span(hint, Tone::Dim))
}

fn push_device_lines(out: &mut Vec<Vec<Span>>, d: &DeviceSnapshot, sel: bool, values: &Vec<String>)
    requires
        values@.len() == d@.channels.len(),
    ensures
        lines_view(final(out)@) == lines_view(old(out)@) + device_lines(d@, sel, values@.map_values(
            |s: String| s@,
        )),
{
    let ghost vals = values@.map_values(|s: String| s@);
    let ghost start = lines_view(out@);
    push_line(out, line1(span("", Tone::Plain)));
    push_line(out, device_header_line(d, sel));
    let mut k: usize = 0;
    while k < d.channels.len()
        invariant
            k <= d@.channels.len(),
            values@.len() == d@.channels.len(),
            vals == values@.map_values(|s: String| s@),
            lines_view(out@) == start + seq![blank(), device_header(d@, sel)] + Seq::new(
                k as nat,
                |j: int| channel_line(d@.channels[j], vals[j]),
            ),
        decreases d@.channels.len() - k,
    {
        proof {
            assert(d@.channels[k as int] == d.channels@[k as int]@);
        }
        push_line(out, channel_row(&d.channels[k], values[k].as_str()));
        k = k + 1;
        proof {
            assert(lines_view(out@) =~= start + seq![blank(), device_header(d@, sel)] + Seq::new(
                k as nat,
                |j: int| channel_line(d@.channels[j], vals[j]),
            ));
        }
    }
    let ghost mid = lines_view(out@);
    if d.coils.len() > 0 {
        push_line(out, line1(span("", Tone::Plain)));
        push_line(out, line1(span("   Coils:", Tone::Yellow)));
        let mut ci: usize = 0;
        while ci < d.coils.len()
            invariant
                ci <= d@.coils.len(),
                d@.coils.len() > 0,
                lines_view(out@) == mid + seq![blank(), one("   Coils:"@, Tone::Yellow)] + Seq::new(
                    ci as nat,
                    |j: int| coil_line(j, d@.coils[j], sel),
                ),
            decreases d@.coils.len() - ci,
        {
            push_line(out, coil_row(ci, d.coils[ci], sel));
            ci = ci + 1;
            proof {
                assert(lines_view(out@) =~= mid + seq![blank(), one("   Coils:"@, Tone::Yellow)] + Seq::new(
                    ci as nat,
                    |j: int| coil_line(j, d@.coils[j], sel),
                ));
            }
        }
    }
    proof {
        assert(lines_view(out@) =~= start + device_lines(d@, sel, vals));
    }
}

impl App {
    /// The dashboard's device list (see `spec_dashboard_lines`);
    /// `values[i][k]` is channel `k` of device `i` as the front end
    /// formats it.
    pub fn dashboard_lines(&self, values: &Vec<Vec<String>>) -> (r: Vec<Vec<Span>>)
        requires
            values@.len() == self@.snapshot.len(),
            forall|i: int| 0 <= i < values@.len() ==> #[trigger] values@[i]@.len() == self@.snapshot[i].channels.len(),
        ensures
            lines_view(r@) == spec_dashboard_lines(self@, texts_view(values@)),
    {
        let mut out: Vec<Vec<Span>> = Vec::new();
        if self.snapshot.len() == 0 && self.source.is_none() {
            push_line(&mut out, line1(span(" ╭──────────────────────────────────────────╮", Tone::Dim)));
            push_line(&mut out, line1(span(" │  No data. Start the test server ([e])    │", Tone::Dim)));
            push_line(&mut out, line1(span(" │  or connect an ESP32 ([c] on Ports tab)   │", Tone::Dim)));
            push_line(&mut out, line1(span(" ╰──────────────────────────────────────────╯", Tone::Dim)));
        }
        let ghost head = lines_view(out@);
        proof {
            assert(head =~= (if self@.snapshot.len() == 0 && self@.source is None {
                no_data_notice()
            } else {
                Seq::empty()
            }));
        }
        let sel = self.selected_device();
        let ghost vals = texts_view(values@);
        let mut i: usize = 0;
        while i < self.snapshot.len()
            invariant
                i <= self@.snapshot.len(),
                values@.len() == self@.snapshot.len(),
                forall|j: int| 0 <= j < values@.len() ==> #[trigger] values@[j]@.len() == self@.snapshot[j].channels.len(),
                vals == texts_view(values@),
                sel == spec_selected_device(self@),
                lines_view(out@) == head + devices_lines(self@.snapshot, sel as int, vals, i as nat),
            decreases self@.snapshot.len() - i,
        {
            proof {
                assert(self@.snapshot[i as int] == self.snapshot@[i as int]@);
                assert(values@[i as int]@.len() == self@.snapshot[i as int].channels.len());
                assert(vals[i as int] == values@[i as int]@.map_values(|s: String| s@));
            }
            push_device_lines(&mut out, &self.snapshot[i], i == sel, &values[i]);
            i = i + 1;
        }
        out
    }
}

/// The first row of the device list that selects device `sel`, from row
/// `i` on; the number of rows when none does.
pub open spec fn row_of(map: Seq<Option<usize>>, sel: usize, i: int) -> int
    decreases map.len() - i,
{
    if i < 0 || i >= map.len() {
        map.len() as int
    } else if map[i] == Some(sel) {
        i
    } else {
        row_of(map, sel, i + 1)
    }
}

/// The row of the selected device's header (the top row when no row
/// selects it).
pub open spec fn header_row(map: Seq<Option<usize>>, sel: usize) -> int {
    let r = row_of(map, sel, 0);
    if r < map.len() {
        r
    } else {
        0
    }
}

/// `a - b`, or 0 when `b` is larger.
pub open spec fn sat_sub(a: int, b: int) -> int {
    if a >= b {
        a - b
    } else {
        0
    }
}

/// Where the dashboard's device list starts, and which selection it has
/// seen, for `len` lines in a page of `page` rows: the previous position
/// kept inside the list, moved down so that the selected header stays on
/// the page, and moved up to the header when the selection has just
/// changed.
pub open spec fn spec_dash_scroll(
    map: Seq<Option<usize>>,
    sel: usize,
    page: nat,
    len: nat,
    prev: nat,
    seen: usize,
) -> (nat, usize) {
    let h = header_row(map, sel);
    let s0: int = if map.len() == 0 {
        0
    } else if prev < sat_sub(len as int, page as int) {
        prev as int
    } else {
        sat_sub(len as int, page as int)
    };
    let s1: int = if h >= s0 + page {
        h + 1 - page
    } else {
        s0
    };
    if seen != sel {
        ((if h < s1 {
            h
        } else {
            s1
        }) as nat, sel)
    } else {
        (s1 as nat, seen)
    }
}

proof fn lemma_row_of(map: Seq<Option<usize>>, sel: usize, i: int)
    requires
        0 <= i <= map.len(),
    ensures
        i <= row_of(map, sel, i) <= map.len(),
    decreases map.len() - i,
{
    if i < map.len() && map[i] != Some(sel) {
        lemma_row_of(map, sel, i + 1);
    }
}

/// The dashboard's scrolling (see `spec_dash_scroll`): the first line
/// shown and the selection seen.
pub fn dash_scroll(map: &[Option<usize>], sel: usize, page: u16, len: usize, prev: usize, seen: usize) -> (r: (
    usize,
    usize,
))
    ensures
        (r.0 as nat, r.1) == spec_dash_scroll(map@, sel, page as nat, len as nat, prev as nat, seen),
{
    let mut i: usize = 0;
    while i < map.len() && map[i] != Some(sel)
        invariant
            i <= map@.len(),
            row_of(map@, sel, 0) == row_of(map@, sel, i as int),
        decreases map@.len() - i,
    {
        i = i + 1;
    }
    let h: usize = if i < map.len() {
        i
    } else {
        0
    };
    let p: usize = page as usize;
    let max_scroll: usize = if len >= p {
        len - p
    } else {
        0
    };
    let s0: usize = if map.len() == 0 {
        0
    } else if prev < max_scroll {
        prev
    } else {
        max_scroll
    };
    let s1: usize = if h >= s0 && h - s0 >= p {
        h + 1 - p
    } else {
        s0
    };
    if seen != sel {
        (if h < s1 {
            h
        } else {
            s1
        }, sel)
    } else {
        (s1, seen)
    }
}

/// The title of the dashboard's device list.
pub open spec fn spec_devices_title(scroll: nat, page: nat) -> Seq<char> {
    if scroll > 0 {
        " Devices [scrolled "@ + dec(scroll + page) + "..] "@
    } else {
        " Devices "@
    }
}

/// The title of the dashboard's device list.
pub fn devices_title(scroll: usize, page: u16) -> (r: String)
    requires
        scroll + page <= u64::MAX,
    ensures
        r@ == spec_devices_title(scroll as nat, page as nat),
{
    if scroll > 0 {
        let mut s = string_of(" Devices [scrolled ");
        push_dec(&mut s, (scroll as u64) + (page as u64));
        push_str(&mut s, "..] ");
        s
    } else {
        string_of(" Devices ")
    }
}

/// The source line of the pipeline pane.
pub open spec fn spec_source_line(v: AppView) -> Seq<SpanView> {
    if spec_is_emu(v) {
        one(" SOURCE: IN-PROCESS EMULATOR"@, Tone::CyanBold)
    } else if v.source is Some {
        one(" SOURCE: SERIAL ESP32"@, Tone::GreenBold)
    } else {
        one(" SOURCE: NOT CONNECTED"@, Tone::RedBold)
    }
}

/// The state of the serial link in the pipeline pane.
pub open spec fn spec_link_state(v: AppView) -> Seq<char> {
    if spec_is_emu(v) {
        "emulated"@
    } else {
        match v.serial_port {
            Some(p) => match v.last_poll_error {
                Some(e) => p + " (error: "@ + e + ")"@,
                None => p + " (ok)"@,
            },
            None => "no serial link"@,
        }
    }
}

/// A port in the pipeline pane: ESP-like ports marked green.
pub open spec fn port_mark_line(p: PortView) -> Seq<SpanView> {
    let tone = if p.is_esp_like {
        Tone::Green
    } else {
        Tone::Dim
    };
    seq![
        (if p.is_esp_like {
            "●"@
        } else {
            "·"@
        }, tone),
        (" "@ + p.name + " "@ + (if p.is_esp_like {
            if p.has_firmware {
                "[ESP32 F/W]"@
            } else {
                "[ESP32 ?]"@
            }
        } else {
            "[port]"@
        }), tone),
    ]
}

/// The pipeline pane: source, data flow, link details, the first six
/// ports found, and how long ago the last good poll was (`ago`, as the
/// front end rounds it).
pub open spec fn spec_pipeline_lines(v: AppView, ago: Seq<char>) -> Seq<Seq<SpanView>> {
    seq![blank(), spec_source_line(v), one(" ──────────────────────────────────"@, Tone::Plain), blank(), one(
        "  [sensors] ─▶ [Modbus RTU] ─▶ [UI]"@,
        Tone::Plain,
    ), blank(), one(" Serial link : "@ + spec_link_state(v), if v.source is Some {
        Tone::Green
    } else {
        Tone::Dim
    }), one(
        " HW          : "@ + (if spec_is_emu(v) {
            "n/a (in-memory)"@
        } else {
            "ESP32 + MAX3485 + ZK-U485"@
        }),
        Tone::Dim,
    ), blank(), one(" Ports found:"@, Tone::Yellow)] + (if v.ports.len() == 0 {
        seq![one("   (none detected)"@, Tone::Dim)]
    } else {
        Seq::new(
            if v.ports.len() < 6 {
                v.ports.len()
            } else {
                6
            },
            |i: int| port_mark_line(v.ports[i]),
        )
    }) + seq![blank(), one(" Last good poll: "@ + ago + "s ago"@, Tone::Dim)]
}

fn port_mark_row(p: &PortInfo) -> (r: Vec<Span>)
    ensures
        line_view(r@) == port_mark_line(p@),
{
    let tone = if p.is_esp_like {
        Tone::Green
    } else {
        Tone::Dim
    };
    let mut b = string_of(" ");
    push_str(&mut b, p.name.as_str());
    push_str(&mut b, " ");
    push_str(&mut b, if p.is_esp_like {
        if p.has_firmware {
            "[ESP32 F/W]"
        } else {
            "[ESP32 ?]"
        }
    } else {
        "[port]"
    });
    line2(span(if p.is_esp_like {
        "●"
    } else {
        "·"
    }, tone), owned(b, tone))
}

impl App {
    fn link_state(&self) -> (r: String)
        ensures
            r@ == spec_link_state(self@),
    {
        if self.is_emu() {
            return string_of("emulated");
        }
        match &self.serial_port {
            Some(p) => {
                let mut s = string_of(p.as_str());
                match &self.last_poll_error {
                    Some(e) => {
                        push_str(&mut s, " (error: ");
                        push_str(&mut s, e.as_str());
                        push_str(&mut s, ")");
                    },
                    None => push_str(&mut s, " (ok)"),
                }
                s
            },
            None => string_of("no serial link"),
        }
    }

    /// The pipeline pane (see `spec_pipeline_lines`).
    pub fn pipeline_lines(&self, ago: &str) -> (r: Vec<Vec<Span>>)
        ensures
            lines_view(r@) == spec_pipeline_lines(self@, ago@),
    {
        let emu = self.is_emu();
        let connected = self.source.is_some();
        let mut out: Vec<Vec<Span>> = Vec::new();
        push_line(&mut out, line1(span("", Tone::Plain)));
        if emu {
            push_line(&mut out, line1(span(" SOURCE: IN-PROCESS EMULATOR", Tone::CyanBold)));
        } else if connected {
            push_line(&mut out, line1(span(" SOURCE: SERIAL ESP32", Tone::GreenBold)));
        } else {
            push_line(&mut out, line1(span(" SOURCE: NOT CONNECTED", Tone::RedBold)));
        }
        push_line(&mut out, line1(span(" ──────────────────────────────────", Tone::Plain)));
        push_line(&mut out, line1(span("", Tone::Plain)));
        push_line(&mut out, line1(span("  [sensors] ─▶ [Modbus RTU] ─▶ [UI]", Tone::Plain)));
        push_line(&mut out, line1(span("", Tone::Plain)));
        let mut link = string_of(" Serial link : ");
        let st = self.link_state();
        push_str(&mut link, st.as_str());
        push_line(&mut out, line1(owned(link, if connected {
            Tone::Green
        } else {
            Tone::Dim
        })));
        let mut hw = string_of(" HW          : ");
        push_str(&mut hw, if emu {
            "n/a (in-memory)"
        } else {
            "ESP32 + MAX3485 + ZK-U485"
        });
        push_line(&mut out, line1(owned(hw, Tone::Dim)));
        push_line(&mut out, line1(span("", Tone::Plain)));
        push_line(&mut out, line1(span(" Ports found:", Tone::Yellow)));
        let ghost head = lines_view(out@);
        if self.ports.len() == 0 {
            push_line(&mut out, line1(span("   (none detected)", Tone::Dim)));
        } else {
            let n: usize = if self.ports.len() < 6 {
                self.ports.len()
            } else {
                6
            };
            let mut i: usize = 0;
            while i < n
                invariant
                    i <= n,
                    n <= self@.ports.len(),
                    lines_view(out@) == head + Seq::new(i as nat, |k: int| port_mark_line(self@.ports[k])),
                decreases n - i,
            {
                proof {
                    assert(self@.ports[i as int] == self.ports@[i as int]@);
                }
                push_line(&mut out, port_mark_row(&self.ports[i]));
                i = i + 1;
                proof {
                    assert(lines_view(out@) =~= head + Seq::new(i as nat, |k: int| port_mark_line(self@.ports[k])));
                }
            }
        }
        push_line(&mut out, line1(span("", Tone::Plain)));
        let mut last = string_of(" Last good poll: ");
        push_str(&mut last, ago);
        push_str(&mut last, "s ago");
        push_line(&mut out, line1(owned(last, Tone::Dim)));
        proof {
            assert(lines_view(out@) =~= spec_pipeline_lines(self@, ago@));
        }
        out
    }
}

/// A port of the Ports list: cursor mark, name, status, description, and
/// a mark on the port a master is open on.
pub open spec fn port_list_line(p: PortView, cursor: bool, connected: bool) -> Seq<SpanView> {
    seq![
        (if cursor {
            "›"@
        } else {
            " "@
        }, Tone::Cyan),
        (" "@ + p.name + " "@, Tone::WhiteBold),
        ("["@ + crate::app_state::spec_status_label(p.is_esp_like, p.has_firmware) + "]"@, if p.is_esp_like {
            if p.has_firmware {
                Tone::Green
            } else {
                Tone::Yellow
            }
        } else {
            Tone::Dim
        }),
        ("  "@ + p.description, Tone::Dim),
        (if connected {
            "  ◈ CONNECTED"@
        } else {
            ""@
        }, if connected {
            Tone::Green
        } else {
            Tone::Plain
        }),
    ]
}

/// The Ports list.
pub open spec fn spec_port_lines(v: AppView) -> Seq<Seq<SpanView>> {
    Seq::new(
        v.ports.len(),
        |i: int| port_list_line(v.ports[i], i == v.selected_port, v.serial_port == Some(v.ports[i].name)),
    )
}

fn port_list_row(p: &PortInfo, cursor: bool, connected: bool) -> (r: Vec<Span>)
    ensures
        line_view(r@) == port_list_line(p@, cursor, connected),
{
    let mut l: Vec<Span> = Vec::new();
    l.push(span(if cursor {
        "›"
    } else {
        " "
    }, Tone::Cyan));
    let mut n = string_of(" ");
    push_str(&mut n, p.name.as_str());
    push_str(&mut n, " ");
    l.push(owned(n, Tone::WhiteBold));
    let mut t = string_of("[");
    push_str(&mut t, p.status_label());
    push_str(&mut t, "]");
    l.push(owned(t, if p.is_esp_like {
        if p.has_firmware {
            Tone::Green
        } else {
            Tone::Yellow
        }
    } else {
        Tone::Dim
    }));
    let mut d = string_of("  ");
    push_str(&mut d, p.description.as_str());
    l.push(owned(d, Tone::Dim));
    l.push(if connected {
        span("  ◈ CONNECTED", Tone::Green)
    } else {
        span("", Tone::Plain)
    });
    proof {
        assert(line_view(l@) =~= port_list_line(p@, cursor, connected));
    }
    l
}

impl App {
    /// The Ports list (see `spec_port_lines`).
    pub fn port_lines(&self) -> (r: Vec<Vec<Span>>)
        ensures
            lines_view(r@) == spec_port_lines(self@),
    {
        let mut out: Vec<Vec<Span>> = Vec::new();
        let mut i: usize = 0;
        while i < self.ports.len()
            invariant
                i <= self@.ports.len(),
                lines_view(out@) == Seq::new(
                    i as nat,
                    |k: int| port_list_line(
                        self@.ports[k],
                        k == self@.selected_port,
                        self@.serial_port == Some(self@.ports[k].name),
                    ),
                ),
            decreases self@.ports.len() - i,
        {
            let p = &self.ports[i];
            proof {
                assert(self@.ports[i as int] == p@);
            }
            let connected = match &self.serial_port {
                Some(s) => crate::text::str_eq(s.as_str(), p.name.as_str()),
                None => false,
            };
            proof {
                assert(connected == (self@.serial_port == Some(p@.name)));
            }
            push_line(&mut out, port_list_row(p, i == self.selected_port, connected));
            i = i + 1;
            proof {
                assert(lines_view(out@) =~= Seq::new(
                    i as nat,
                    |k: int| port_list_line(
                        self@.ports[k],
                        k == self@.selected_port,
                        self@.serial_port == Some(self@.ports[k].name),
                    ),
                ));
            }
        }
        out
    }
}

/// Whether field `i` of a form is being typed into.
pub open spec fn editing_reg(v: AppView, i: usize) -> bool {
    v.editing == Some(FieldEdit::Reg(i))
}

/// Whether field `i` of the sensor form is being typed into.
pub open spec fn editing_sensor(v: AppView, i: usize) -> bool {
    v.editing == Some(FieldEdit::Sensor(i))
}

/// The unit the TCP master addresses, as the register editor's slave id
/// parses (`unit N`), or nothing.
pub open spec fn unit_text(slave: Seq<char>) -> Seq<char> {
    match crate::text::spec_parse_uint(slave, 255) {
        Some(u) => "unit "@ + dec(u),
        None => ""@,
    }
}

/// The Modbus TCP master pane: connection state (`connected` is the
/// address a master is open on), the target's host and port fields, and
/// what is polled.
pub open spec fn spec_tcp_lines(v: AppView, connected: Option<Seq<char>>, host: Seq<char>, port: Seq<char>) -> Seq<
    Seq<SpanView>,
> {
    seq![one(" Modbus TCP master"@, Tone::CyanBold), blank()] + match connected {
        Some(addr) => seq![
            seq![(" ● "@, Tone::Green), ("Connected to "@ + addr + " ("@ + unit_text(v.reg_form.slave_id) + ")"@, Tone::GreenBold)],
            one(" [o] disconnect"@, Tone::Dim),
        ],
        None => seq![
            seq![(" ○ "@, Tone::Red), ("No TCP connection"@, Tone::Red)],
            one(" [y] connect after editing host/port below"@, Tone::Dim),
        ],
    } + seq![
        blank(),
        one(" Target device (host:port):"@, Tone::Yellow),
        spec_field_line("Host"@, host, v.tcp_focus == 0, false),
        spec_field_line("Port"@, port, v.tcp_focus == 1, false),
        one(" ←/→ focus   [enter] edit   [y] connect   [o] disconnect"@, Tone::Dim),
        blank(),
        one("Polled map: input 0..63 (32×float32), coils, holding."@, if !spec_is_emu(v) && connected is Some {
            Tone::Green
        } else {
            Tone::Dim
        }),
        one("Slave ID in MBAP header = register editor's 'Slave ID'."@, Tone::Dim),
    ]
}

impl App {
    fn unit_text(&self) -> (r: String)
        ensures
            r@ == unit_text(self@.reg_form.slave_id),
    {
        match crate::text::parse_uint(self.reg_form.slave_id.as_str(), 255) {
            Some(u) => {
                let mut s = string_of("unit ");
                push_dec(&mut s, u as u64);
                s
            },
            None => string_of(""),
        }
    }

    /// The Modbus TCP master pane (see `spec_tcp_lines`).
    pub fn tcp_lines(&self, connected: Option<&str>, host: &str, port: &str) -> (r: Vec<Vec<Span>>)
        ensures
            lines_view(r@) == spec_tcp_lines(self@, match connected {
                Some(a) => Some(a@),
                None => None,
            }, host@, port@),
    {
        let mut out: Vec<Vec<Span>> = Vec::new();
        push_line(&mut out, line1(span(" Modbus TCP master", Tone::CyanBold)));
        push_line(&mut out, line1(span("", Tone::Plain)));
        match connected {
            Some(addr) => {
                let mut t = string_of("Connected to ");
                push_str(&mut t, addr);
                push_str(&mut t, " (");
                let u = self.unit_text();
                push_str(&mut t, u.as_str());
                push_str(&mut t, ")");
                push_line(&mut out, line2(span(" ● ", Tone::Green), owned(t, Tone::GreenBold)));
                push_line(&mut out, line1(span(" [o] disconnect", Tone::Dim)));
            },
            None => {
                push_line(&mut out, line2(span(" ○ ", Tone::Red), span("No TCP connection", Tone::Red)));
                push_line(&mut out, line1(span(" [y] connect after editing host/port below", Tone::Dim)));
            },
        }
        push_line(&mut out, line1(span("", Tone::Plain)));
        push_line(&mut out, line1(span(" Target device (host:port):", Tone::Yellow)));
        push_line(&mut out, field_line("Host", host, self.tcp_focus == 0, false));
        push_line(&mut out, field_line("Port", port, self.tcp_focus == 1, false));
        push_line(&mut out, line1(span(" ←/→ focus   [enter] edit   [y] connect   [o] disconnect", Tone::Dim)));
        push_line(&mut out, line1(span("", Tone::Plain)));
        let polled = !self.is_emu() && connected.is_some();
        push_line(&mut out, line1(span("Polled map: input 0..63 (32×float32), coils, holding.", if polled {
            Tone::Green
        } else {
            Tone::Dim
        })));
        push_line(&mut out, line1(span("Slave ID in MBAP header = register editor's 'Slave ID'.", Tone::Dim)));
        proof {
            assert(lines_view(out@) =~= spec_tcp_lines(self@, match connected {
                Some(a) => Some(a@),
                None => None,
            }, host@, port@));
        }
        out
    }
}

/// The name of a register table.
pub open spec fn type_label(t: usize) -> Seq<char> {
    if t == 0 {
        "INPUT"@
    } else if t == 1 {
        "HOLDING"@
    } else {
        "COIL"@
    }
}

/// The hint next to a form's title while typing, or the keys to start.
pub open spec fn edit_hint(editing: bool) -> Seq<char> {
    if editing {
        " typing… [enter] ok [esc] cancel"@
    } else {
        " [↑↓] focus  [enter] edit"@
    }
}

/// The register editor: table, the five fields, the keys, the last
/// result, and what is targeted.
pub open spec fn spec_register_lines(v: AppView) -> Seq<Seq<SpanView>> {
    let f = v.reg_form;
    seq![
        blank(),
        one(" Register editor"@, Tone::CyanBold),
        blank(),
        one(" Reg type : "@ + type_label(f.reg_type) + "   [t] change  "@ + edit_hint(v.editing is Some), Tone::Yellow),
        spec_field_line("Slave ID"@, f.slave_id, v.reg_focus == 0, editing_reg(v, 0)),
        spec_field_line("Start addr"@, f.start, v.reg_focus == 1, editing_reg(v, 1)),
        spec_field_line("Count"@, f.count, v.reg_focus == 2, editing_reg(v, 2)),
        spec_field_line("Write addr"@, f.addr, v.reg_focus == 3, editing_reg(v, 3)),
        spec_field_line("Write value"@, f.value, v.reg_focus == 4, editing_reg(v, 4)),
        blank(),
        one(" [r] read  [w] write value"@, Tone::Yellow),
        blank(),
        one(" Current result: "@ + (if v.status_line.len() == 0 {
            "-"@
        } else {
            v.status_line
        }), Tone::Plain),
    ] + (if v.source is None {
        seq![one(" ! no target: press [e] for emulator, or connect in Ports"@, Tone::Red)]
    } else {
        Seq::empty()
    }) + seq![
        blank(),
        one(if spec_is_emu(v) {
            " Target: in-process emulator"@
        } else if v.source is Some {
            " Target: serial ESP32"@
        } else {
            " Target: (no connection — start emulator [e])"@
        }, if v.source is Some {
            Tone::Green
        } else {
            Tone::Dim
        }),
    ]
}

fn is_edit(e: Option<FieldEdit>, target: FieldEdit) -> (r: bool)
    ensures
        r == (e == Some(target)),
{
    match e {
        Some(x) => x == target,
        None => false,
    }
}

impl App {
    /// The register editor (see `spec_register_lines`).
    #[verifier::rlimit(60)]
    #[verifier::spinoff_prover]
    pub fn register_lines(&self) -> (r: Vec<Vec<Span>>)
        ensures
            lines_view(r@) == spec_register_lines(self@),
    {
        let f = &self.reg_form;
        let e = self.editing;
        let mut out: Vec<Vec<Span>> = Vec::new();
        push_line(&mut out, line1(span("", Tone::Plain)));
        push_line(&mut out, line1(span(" Register editor", Tone::CyanBold)));
        push_line(&mut out, line1(span("", Tone::Plain)));
        let mut t = string_of(" Reg type : ");
        push_str(&mut t, if f.reg_type == 0 {
            "INPUT"
        } else if f.reg_type == 1 {
            "HOLDING"
        } else {
            "COIL"
        });
        push_str(&mut t, "   [t] change  ");
        push_str(&mut t, if e.is_some() {
            " typing… [enter] ok [esc] cancel"
        } else {
            " [↑↓] focus  [enter] edit"
        });
        push_line(&mut out, line1(owned(t, Tone::Yellow)));
        push_line(&mut out, field_line("Slave ID", f.slave_id.as_str(), self.reg_focus == 0, is_edit(e, FieldEdit::Reg(0))));
        push_line(&mut out, field_line("Start addr", f.start.as_str(), self.reg_focus == 1, is_edit(e, FieldEdit::Reg(1))));
        push_line(&mut out, field_line("Count", f.count.as_str(), self.reg_focus == 2, is_edit(e, FieldEdit::Reg(2))));
        push_line(&mut out, field_line("Write addr", f.addr.as_str(), self.reg_focus == 3, is_edit(e, FieldEdit::Reg(3))));
        push_line(&mut out, field_line("Write value", f.value.as_str(), self.reg_focus == 4, is_edit(e, FieldEdit::Reg(4))));
        push_line(&mut out, line1(span("", Tone::Plain)));
        push_line(&mut out, line1(span(" [r] read  [w] write value", Tone::Yellow)));
        push_line(&mut out, line1(span("", Tone::Plain)));
        let mut c = string_of(" Current result: ");
        if self.status_line.unicode_len() == 0 {
            push_str(&mut c, "-");
        } else {
            push_str(&mut c, self.status_line.as_str());
        }
        push_line(&mut out, line1(owned(c, Tone::Plain)));
        let connected = self.source.is_some();
        if !connected {
            push_line(&mut out, line1(span(" ! no target: press [e] for emulator, or connect in Ports", Tone::Red)));
        }
        push_line(&mut out, line1(span("", Tone::Plain)));
        push_line(&mut out, line1(span(if self.is_emu() {
            " Target: in-process emulator"
        } else if connected {
            " Target: serial ESP32"
        } else {
            " Target: (no connection — start emulator [e])"
        }, if connected {
            Tone::Green
        } else {
            Tone::Dim
        })));
        proof {
            assert(lines_view(out@) =~= spec_register_lines(self@));
        }
        out
    }
}

/// A channel of the live snapshot pane: label in 5 columns, register, and
/// the formatted value.
pub open spec fn snapshot_channel_line(c: ChannelView, value: Seq<char>) -> Seq<SpanView> {
    one("  "@ + pad_right(c.label, 5) + " @"@ + dec(c.reg as nat) + " = "@ + value + " "@ + c.unit, Tone::Plain)
}

/// The lines of device `i` of the live snapshot pane (with a blank line
/// after every device but the last).
pub open spec fn snapshot_device_lines(d: SnapshotView, values: Seq<Seq<char>>, last: bool) -> Seq<Seq<SpanView>> {
    seq![one(" Slave "@ + dec(d.slave_id as nat) + ": "@ + d.name, Tone::CyanBold)] + Seq::new(
        d.channels.len(),
        |k: int| snapshot_channel_line(d.channels[k], values[k]),
    ) + if last {
        Seq::empty()
    } else {
        seq![blank()]
    }
}

/// The lines of the first `n` devices of the live snapshot pane.
pub open spec fn snapshot_lines_upto(devs: Seq<SnapshotView>, values: Seq<Seq<Seq<char>>>, n: nat) -> Seq<
    Seq<SpanView>,
>
    decreases n,
{
    if n == 0 {
        seq![blank()]
    } else {
        snapshot_lines_upto(devs, values, (n - 1) as nat) + snapshot_device_lines(
            devs[n - 1],
            values[n - 1],
            n == devs.len(),
        )
    }
}

impl App {
    /// The live snapshot pane of the Registers tab; `values[i][k]` is
    /// channel `k` of device `i` as the front end formats it.
    pub fn snapshot_lines(&self, values: &Vec<Vec<String>>) -> (r: Vec<Vec<Span>>)
        requires
            values@.len() == self@.snapshot.len(),
            forall|i: int| 0 <= i < values@.len() ==> #[trigger] values@[i]@.len() == self@.snapshot[i].channels.len(),
        ensures
            lines_view(r@) == snapshot_lines_upto(self@.snapshot, texts_view(values@), self@.snapshot.len()),
    {
        let ghost vals = texts_view(values@);
        let mut out: Vec<Vec<Span>> = Vec::new();
        push_line(&mut out, line1(span("", Tone::Plain)));
        proof {
            assert(lines_view(out@) =~= snapshot_lines_upto(self@.snapshot, vals, 0));
        }
        let n = self.snapshot.len();
        let mut i: usize = 0;
        while i < n
            invariant
                i <= n,
                n == self@.snapshot.len(),
                values@.len() == n,
                forall|j: int| 0 <= j < values@.len() ==> #[trigger] values@[j]@.len() == self@.snapshot[j].channels.len(),
                vals == texts_view(values@),
                lines_view(out@) == snapshot_lines_upto(self@.snapshot, vals, i as nat),
            decreases n - i,
        {
            let d = &self.snapshot[i];
            let row = &values[i];
            let ghost dv = d@;
            let ghost rv = vals[i as int];
            proof {
                assert(self@.snapshot[i as int] == dv);
                assert(rv == row@.map_values(|s: String| s@));
                assert(row@.len() == dv.channels.len());
            }
            let ghost start = lines_view(out@);
            let mut h = string_of(" Slave ");
            push_dec(&mut h, d.slave_id as u64);
            push_str(&mut h, ": ");
            push_str(&mut h, d.name.as_str());
            push_line(&mut out, line1(owned(h, Tone::CyanBold)));
            let mut k: usize = 0;
            while k < d.channels.len()
                invariant
                    k <= dv.channels.len(),
                    dv == d@,
                    row@.len() == dv.channels.len(),
                    rv == row@.map_values(|s: String| s@),
                    lines_view(out@) == start + seq![one(" Slave "@ + dec(dv.slave_id as nat) + ": "@ + dv.name, Tone::CyanBold)]
                        + Seq::new(k as nat, |j: int| snapshot_channel_line(dv.channels[j], rv[j])),
                decreases dv.channels.len() - k,
            {
                let c = &d.channels[k];
                proof {
                    assert(dv.channels[k as int] == c@);
                }
                let mut s = string_of("  ");
                push_padded_right(&mut s, c.label.as_str(), 5);
                push_str(&mut s, " @");
                push_dec(&mut s, c.reg as u64);
                push_str(&mut s, " = ");
                push_str(&mut s, row[k].as_str());
                push_str(&mut s, " ");
                push_str(&mut s, c.unit.as_str());
                push_line(&mut out, line1(owned(s, Tone::Plain)));
                k = k + 1;
                proof {
                    assert(lines_view(out@) =~= start + seq![one(" Slave "@ + dec(dv.slave_id as nat) + ": "@ + dv.name, Tone::CyanBold)]
                        + Seq::new(k as nat, |j: int| snapshot_channel_line(dv.channels[j], rv[j])));
                }
            }
            if i + 1 < n {
                push_line(&mut out, line1(span("", Tone::Plain)));
            }
            i = i + 1;
            proof {
                assert(lines_view(out@) =~= snapshot_lines_upto(self@.snapshot, vals, i as nat));
            }
        }
        out
    }
}

/// The content of a list of items of several lines each.
pub open spec fn items_view(items: Seq<Vec<Vec<Span>>>) -> Seq<Seq<Seq<SpanView>>> {
    items.map_values(|it: Vec<Vec<Span>>| lines_view(it@))
}

fn push_item(out: &mut Vec<Vec<Vec<Span>>>, it: Vec<Vec<Span>>)
    ensures
        items_view(final(out)@) == items_view(old(out)@).push(lines_view(it@)),
{
    let ghost before = out@;
    out.push(it);
    proof {
        assert(items_view(out@) =~= items_view(before).push(lines_view(it@)));
    }
}

/// The header item of a device in the sensor list (after a blank line,
/// but for the first device).
pub open spec fn device_item(d: DeviceView, first: bool) -> Seq<Seq<SpanView>> {
    (if first {
        Seq::empty()
    } else {
        seq![blank()]
    }) + seq![one("◆ Slave "@ + dec(d.slave_id as nat) + " — "@ + d.name + " "@, Tone::CyanBold)]
}

/// A sensor of the sensor list: enabled mark, name, kind, and its numbers
/// as the front end formats them.
pub open spec fn sensor_item(s: SensorView, numbers: Seq<char>) -> Seq<Seq<SpanView>> {
    seq![
        seq![
            (if s.enabled {
                "●"@
            } else {
                "○"@
            }, if s.enabled {
                Tone::Green
            } else {
                Tone::Red
            }),
            ("  "@ + s.name, Tone::White),
            ("  "@ + crate::emulator::spec_label(s.data_type) + "  "@ + numbers, Tone::Dim),
        ],
    ]
}

/// The sensor list of the first `k` devices: each device's header item,
/// then one item per sensor.
pub open spec fn sensor_items(devs: Seq<DeviceView>, numbers: Seq<Seq<Seq<char>>>, k: nat) -> Seq<
    Seq<Seq<SpanView>>,
>
    decreases k,
{
    if k == 0 {
        Seq::empty()
    } else {
        let d = devs[k - 1];
        sensor_items(devs, numbers, (k - 1) as nat) + seq![device_item(d, k == 1)] + Seq::new(
            d.sensors.len(),
            |si: int| sensor_item(d.sensors[si], numbers[k - 1][si]),
        )
    }
}

/// The title of the sensor list.
pub open spec fn spec_sensor_list_title(manage: bool) -> Seq<char> {
    if manage {
        " Manage: [↑↓] move  [d] delete device/sensor  [esc] done "@
    } else {
        " Virtual sensors (emulator)  [m] manage  [n] new slave "@
    }
}

/// The sensor factory form.
pub open spec fn spec_sensor_form_lines(v: AppView) -> Seq<Seq<SpanView>> {
    let f = v.sensor_form;
    seq![
        blank(),
        one(" Add sensor to emulator:"@, Tone::CyanBold),
        blank(),
        spec_field_line("Device idx"@, f.device_idx, v.sensor_focus == 0, editing_sensor(v, 0)),
        spec_field_line("Name"@, f.name, v.sensor_focus == 1, editing_sensor(v, 1)),
        one(" Type         : "@ + crate::emulator::spec_label(f.kind) + "   [1..6] change"@, Tone::Plain),
        spec_field_line("Base value"@, f.base, v.sensor_focus == 2, editing_sensor(v, 2)),
        spec_field_line("Amplitude"@, f.amplitude, v.sensor_focus == 3, editing_sensor(v, 3)),
        spec_field_line("Period (s)"@, f.period, v.sensor_focus == 4, editing_sensor(v, 4)),
        blank(),
        one(" [a] add  "@ + edit_hint(v.editing is Some) + "  [m] manage"@, Tone::Yellow),
        blank(),
        one(" Sensor types: 1=T°C 2=Pressure 3=Flow 4=Test 5=Level 6=Humidity"@, Tone::Dim),
    ]
}

impl App {
    /// The sensor list, item by item (see `sensor_items`);
    /// `numbers[i][k]` is sensor `k` of device `i`'s base, amplitude,
    /// period and last value as the front end formats them.
    pub fn sensor_list(&self, numbers: &Vec<Vec<String>>) -> (r: Vec<Vec<Vec<Span>>>)
        requires
            numbers@.len() == self@.emu.len(),
            forall|i: int| 0 <= i < numbers@.len() ==> #[trigger] numbers@[i]@.len() == self@.emu[i].sensors.len(),
        ensures
            items_view(r@) == sensor_items(self@.emu, texts_view(numbers@), self@.emu.len()),
    {
        let ghost nums = texts_view(numbers@);
        let devs = self.emu.devices();
        let mut out: Vec<Vec<Vec<Span>>> = Vec::new();
        let mut i: usize = 0;
        while i < devs.len()
            invariant
                i <= devs@.len(),
                devs@.map_values(|d: crate::emulator::EmuDevice| d@) == self@.emu,
                numbers@.len() == self@.emu.len(),
                forall|j: int| 0 <= j < numbers@.len() ==> #[trigger] numbers@[j]@.len() == self@.emu[j].sensors.len(),
                nums == texts_view(numbers@),
                items_view(out@) == sensor_items(self@.emu, nums, i as nat),
            decreases devs@.len() - i,
        {
            let d = &devs[i];
            let row = &numbers[i];
            let ghost dv = d@;
            let ghost rv = nums[i as int];
            proof {
                assert(self@.emu[i as int] == dv);
                assert(rv == row@.map_values(|s: String| s@));
                assert(row@.len() == dv.sensors.len());
            }
            let ghost start = items_view(out@);
            let mut header: Vec<Vec<Span>> = Vec::new();
            if i > 0 {
                push_line(&mut header, line1(span("", Tone::Plain)));
            }
            let mut h = string_of("◆ Slave ");
            push_dec(&mut h, d.slave_id as u64);
            push_str(&mut h, " — ");
            push_str(&mut h, d.name.as_str());
            push_str(&mut h, " ");
            push_line(&mut header, line1(owned(h, Tone::CyanBold)));
            proof {
                assert(lines_view(header@) =~= device_item(dv, i == 0));
            }
            push_item(&mut out, header);
            let mut k: usize = 0;
            while k < d.sensors.len()
                invariant
                    k <= dv.sensors.len(),
                    dv == d@,
                    row@.len() == dv.sensors.len(),
                    rv == row@.map_values(|s: String| s@),
                    items_view(out@) == start + seq![device_item(dv, i == 0)] + Seq::new(
                        k as nat,
                        |j: int| sensor_item(dv.sensors[j], rv[j]),
                    ),
                decreases dv.sensors.len() - k,
            {
                let s = &d.sensors[k];
                proof {
                    assert(dv.sensors[k as int] == s@);
                }
                let mut l: Vec<Span> = Vec::new();
                l.push(span(if s.enabled {
                    "●"
                } else {
                    "○"
                }, if s.enabled {
                    Tone::Green
                } else {
                    Tone::Red
                }));
                let mut n = string_of("  ");
                push_str(&mut n, s.name.as_str());
                l.push(owned(n, Tone::White));
                let mut t = string_of("  ");
                push_str(&mut t, s.data_type.label());
                push_str(&mut t, "  ");
                push_str(&mut t, row[k].as_str());
                l.push(owned(t, Tone::Dim));
                let mut item: Vec<Vec<Span>> = Vec::new();
                proof {
                    assert(line_view(l@) =~= sensor_item(s@, rv[k as int])[0]);
                }
                push_line(&mut item, l);
                proof {
                    assert(lines_view(item@) =~= sensor_item(s@, rv[k as int]));
                }
                push_item(&mut out, item);
                k = k + 1;
                proof {
                    assert(items_view(out@) =~= start + seq![device_item(dv, i == 0)] + Seq::new(
                        k as nat,
                        |j: int| sensor_item(dv.sensors[j], rv[j]),
                    ));
                }
            }
            i = i + 1;
            proof {
                assert(items_view(out@) =~= sensor_items(self@.emu, nums, i as nat));
            }
        }
        out
    }

    /// The title of the sensor list.
    pub fn sensor_list_title(&self) -> (r: &'static str)
        ensures
            r@ == spec_sensor_list_title(self.sensor_manage),
    {
        if self.sensor_manage {
            " Manage: [↑↓] move  [d] delete device/sensor  [esc] done "
        } else {
            " Virtual sensors (emulator)  [m] manage  [n] new slave "
        }
    }

    /// The sensor factory form (see `spec_sensor_form_lines`).
    #[verifier::rlimit(60)]
    #[verifier::spinoff_prover]
    pub fn sensor_form_lines(&self) -> (r: Vec<Vec<Span>>)
        ensures
            lines_view(r@) == spec_sensor_form_lines(self@),
    {
        let f = &self.sensor_form;
        let e = self.editing;
        let mut out: Vec<Vec<Span>> = Vec::new();
        push_line(&mut out, line1(span("", Tone::Plain)));
        push_line(&mut out, line1(span(" Add sensor to emulator:", Tone::CyanBold)));
        push_line(&mut out, line1(span("", Tone::Plain)));
        push_line(&mut out, field_line("Device idx", f.device_idx.as_str(), self.sensor_focus == 0, is_edit(e, FieldEdit::Sensor(0))));
        push_line(&mut out, field_line("Name", f.name.as_str(), self.sensor_focus == 1, is_edit(e, FieldEdit::Sensor(1))));
        let mut t = string_of(" Type         : ");
        push_str(&mut t, f.kind.label());
        push_str(&mut t, "   [1..6] change");
        push_line(&mut out, line1(owned(t, Tone::Plain)));
        push_line(&mut out, field_line("Base value", f.base.as_str(), self.sensor_focus == 2, is_edit(e, FieldEdit::Sensor(2))));
        push_line(&mut out, field_line("Amplitude", f.amplitude.as_str(), self.sensor_focus == 3, is_edit(e, FieldEdit::Sensor(3))));
        push_line(&mut out, field_line("Period (s)", f.period.as_str(), self.sensor_focus == 4, is_edit(e, FieldEdit::Sensor(4))));
        push_line(&mut out, line1(span("", Tone::Plain)));
        let mut a = string_of(" [a] add  ");
        push_str(&mut a, if e.is_some() {
            " typing… [enter] ok [esc] cancel"
        } else {
            " [↑↓] focus  [enter] edit"
        });
        push_str(&mut a, "  [m] manage");
        push_line(&mut out, line1(owned(a, Tone::Yellow)));
        push_line(&mut out, line1(span("", Tone::Plain)));
        push_line(&mut out, line1(span(" Sensor types: 1=T°C 2=Pressure 3=Flow 4=Test 5=Level 6=Humidity", Tone::Dim)));
        proof {
            assert(lines_view(out@) =~= spec_sensor_form_lines(self@));
        }
        out
    }
}

/// The port firmware work targets, as shown.
pub open spec fn shown_fw_port(v: AppView) -> Seq<char> {
    match v.fw_port {
        Some(p) => p,
        None => match v.serial_port {
            Some(p) => p,
            None => "(select in Ports tab)"@,
        },
    }
}

/// The firmware pane: target port, tool (`tool`, the one found), the keys,
/// and the test image (`image`, as the front end shows its path).
pub open spec fn spec_firmware_lines(v: AppView, tool: Option<Seq<char>>, image: Seq<char>) -> Seq<Seq<SpanView>> {
    seq![
        blank(),
        one(" ESP32 Firmware Manager"@, Tone::CyanBold),
        blank(),
        one(" Target port : "@ + shown_fw_port(v), Tone::Plain),
        one(" Tool        : "@ + match tool {
            Some(t) => t,
            None => "(no esptool — install espflash or esptool)"@,
        }, Tone::Plain),
        blank(),
        one(" [i] board-info     — read chip/board"@, Tone::Yellow),
        one(" [B] backup flash   — save to ~/esp32-backups"@, Tone::Yellow),
        one(" [f] flash test fw  — flash esp32-fw binary"@, Tone::Yellow),
        one(" [o] restore        — flash selected backup"@, Tone::Yellow),
        blank(),
        one(" Test firmware binary: "@ + image, Tone::Plain),
        blank(),
        one(" Note: requires `espflash` or `esptool.py` in PATH."@, Tone::Dim),
    ]
}

/// The backup list: the selected backup marked.
pub open spec fn spec_backup_lines(v: AppView) -> Seq<Seq<SpanView>> {
    Seq::new(
        v.backups.len(),
        |i: int| if i == v.backup_selected {
            one("› "@ + v.backups[i], Tone::Yellow)
        } else {
            one("  "@ + v.backups[i], Tone::White)
        },
    )
}

impl App {
    /// The firmware pane (see `spec_firmware_lines`).
    pub fn firmware_lines(&self, tool: Option<&str>, image: &str) -> (r: Vec<Vec<Span>>)
        ensures
            lines_view(r@) == spec_firmware_lines(self@, match tool {
                Some(t) => Some(t@),
                None => None,
            }, image@),
    {
        let mut out: Vec<Vec<Span>> = Vec::new();
        push_line(&mut out, line1(span("", Tone::Plain)));
        push_line(&mut out, line1(span(" ESP32 Firmware Manager", Tone::CyanBold)));
        push_line(&mut out, line1(span("", Tone::Plain)));
        let mut p = string_of(" Target port : ");
        match &self.fw_port {
            Some(x) => push_str(&mut p, x.as_str()),
            None => match &self.serial_port {
                Some(x) => push_str(&mut p, x.as_str()),
                None => push_str(&mut p, "(select in Ports tab)"),
            },
        }
        push_line(&mut out, line1(owned(p, Tone::Plain)));
        let mut t = string_of(" Tool        : ");
        match tool {
            Some(x) => push_str(&mut t, x),
            None => push_str(&mut t, "(no esptool — install espflash or esptool)"),
        }
        push_line(&mut out, line1(owned(t, Tone::Plain)));
        push_line(&mut out, line1(span("", Tone::Plain)));
        push_line(&mut out, line1(span(" [i] board-info     — read chip/board", Tone::Yellow)));
        push_line(&mut out, line1(span(" [B] backup flash   — save to ~/esp32-backups", Tone::Yellow)));
        push_line(&mut out, line1(span(" [f] flash test fw  — flash esp32-fw binary", Tone::Yellow)));
        push_line(&mut out, line1(span(" [o] restore        — flash selected backup", Tone::Yellow)));
        push_line(&mut out, line1(span("", Tone::Plain)));
        let mut b = string_of(" Test firmware binary: ");
        push_str(&mut b, image);
        push_line(&mut out, line1(owned(b, Tone::Plain)));
        push_line(&mut out, line1(span("", Tone::Plain)));
        push_line(&mut out, line1(span(" Note: requires `espflash` or `esptool.py` in PATH.", Tone::Dim)));
        proof {
            assert(lines_view(out@) =~= spec_firmware_lines(self@, match tool {
                Some(t) => Some(t@),
                None => None,
            }, image@));
        }
        out
    }

    /// The backup list (see `spec_backup_lines`).
    pub fn backup_lines(&self) -> (r: Vec<Vec<Span>>)
        ensures
            lines_view(r@) == spec_backup_lines(self@),
    {
        let mut out: Vec<Vec<Span>> = Vec::new();
        let mut i: usize = 0;
        while i < self.backups.len()
            invariant
                i <= self@.backups.len(),
                lines_view(out@) == spec_backup_lines(self@).take(i as int),
            decreases self@.backups.len() - i,
        {
            proof {
                assert(self@.backups[i as int] == self.backups@[i as int]@);
            }
            let sel = i == self.backup_selected;
            let mut s = string_of(if sel {
                "› "
            } else {
                "  "
            });
            push_str(&mut s, self.backups[i].as_str());
            push_line(&mut out, line1(owned(s, if sel {
                Tone::Yellow
            } else {
                Tone::White
            })));
            i = i + 1;
            proof {
                assert(lines_view(out@) =~= spec_backup_lines(self@).take(i as int));
            }
        }
        proof {
            assert(spec_backup_lines(self@).take(i as int) =~= spec_backup_lines(self@));
        }
        out
    }

    /// The title of the backup list.
    pub fn backups_title(&self) -> (r: String)
        ensures
            r@ == " Backups ("@ + dec(self@.backups.len()) + ") "@,
    {
        let mut s = string_of(" Backups (");
        push_dec(&mut s, self.backups.len() as u64);
        push_str(&mut s, ") ");
        s
    }
}

/// The hint the bus view shows while there is no traffic.
pub open spec fn bus_hint(emu: bool, connected: bool) -> Seq<char> {
    if emu {
        " Emulator: кадры появляются при каждом опросе (или после [e])."@
    } else if connected {
        " Ждём первый опрос — откройте вкладку Dashboard и подождите 0.5 сек."@
    } else {
        " Запустите эмулятор ([e]) или подключите порт ([c] на вкладке Ports)."@
    }
}

/// What the bus view says of a transport.
pub open spec fn transport_label(t: Seq<char>) -> Seq<char> {
    if t == "TCP"@ {
        "TCP (MBAP, no CRC)"@
    } else {
        "CRC ok"@
    }
}

/// The size in bytes of a hex dump (`XX` pairs separated by spaces): its
/// UTF-8 length plus one, over three.
pub open spec fn dump_bytes(hex: Seq<char>) -> nat {
    ((vstd::utf8::encode_utf8(hex).len() + 1) / 3) as nat
}

/// Whether both dumps of a transaction can be cut to `w` columns (see
/// `crate::ui::clip_ok`).
pub open spec fn entry_clips(e: TraceEntry, w: nat) -> bool {
    crate::ui::clip_ok(e.req@, w) && crate::ui::clip_ok(e.resp@, w)
}

/// The lines of one transaction in the bus view: a summary, the request,
/// and the reply when there is one, each dump cut to `w` columns.
pub open spec fn entry_lines(e: TraceEntry, w: nat) -> Seq<Seq<SpanView>> {
    seq![
        if e.ok {
            seq![
                (" ▸ "@ + e.fc@, Tone::GreenBold),
                ("   req "@ + dec(dump_bytes(e.req@)) + " B → resp "@ + dec(dump_bytes(e.resp@)) + " B · "@ + dec(
                    e.ms as nat,
                ) + " ms · "@ + transport_label(e.transport@), Tone::Dim),
            ]
        } else {
            seq![
                (" ✖ "@ + e.fc@, Tone::RedBold),
                ("   req "@ + dec(dump_bytes(e.req@)) + " B → "@ + match e.err {
                    Some(m) => m@,
                    None => "no response"@,
                } + " · "@ + dec(e.ms as nat) + " ms"@, Tone::Red),
            ]
        },
        seq![("   → "@, Tone::Dim), (crate::ui::spec_clip_hex(e.req@, w), Tone::Cyan)],
    ] + if e.resp@.len() > 0 {
        seq![seq![("   ← "@, Tone::Dim), (crate::ui::spec_clip_hex(e.resp@, w), Tone::Yellow)]]
    } else {
        Seq::empty()
    }
}

/// The lines of entries `lo .. hi`.
pub open spec fn entries_lines(t: Seq<TraceEntry>, lo: int, hi: int, w: nat) -> Seq<Seq<SpanView>>
    decreases hi - lo,
{
    if hi <= lo {
        Seq::empty()
    } else {
        entries_lines(t, lo, hi - 1, w) + entry_lines(t[hi - 1], w)
    }
}

/// The first entry the bus view shows: the live tail when not scrolled,
/// else `scroll` pages further back (never before the first entry).
pub open spec fn bus_start(total: nat, page_h: nat, scroll: nat) -> nat {
    let page: int = if page_h < 1 {
        1
    } else {
        page_h as int
    };
    let max_start = sat_sub(total as int, page_h as int);
    if scroll == 0 {
        max_start as nat
    } else {
        let s = sat_sub(max_start, scroll * page);
        (if s < max_start {
            s
        } else {
            max_start
        }) as nat
    }
}

/// How many transactions the bus view shows on a page of `page_h` rows.
pub open spec fn bus_count(total: nat, page_h: nat) -> nat {
    let fit = sat_sub(page_h as int, 2) / 2;
    let most: int = if total < 1 {
        1
    } else {
        total as int
    };
    (if fit < most {
        fit
    } else {
        most
    }) as nat
}

/// The bus view: a note while there is no traffic, then the transactions
/// of the page (as many as fit from `bus_start` on), dumps cut to the
/// width of the view less 6 columns.
pub open spec fn spec_bus_lines(
    t: Seq<TraceEntry>,
    scroll: nat,
    page_h: nat,
    width: nat,
    emu: bool,
    connected: bool,
) -> Seq<Seq<SpanView>> {
    let start = bus_start(t.len(), page_h, scroll);
    let end: int = if start + bus_count(t.len(), page_h) < t.len() {
        (start + bus_count(t.len(), page_h)) as int
    } else {
        t.len() as int
    };
    (if t.len() == 0 {
        seq![
            one(" No Modbus traffic yet."@, Tone::Dim),
            one(bus_hint(emu, connected), Tone::Dim),
            one(" Каждый опрос = 3 транзакции по шине: READ INPUT (T/P), READ COILS, READ HOLDING."@, Tone::Dim),
            one(" TCP-запросы от клиентов (вкладка Ports → [t]) тоже попадают сюда, помеченные TCP."@, Tone::Dim),
        ]
    } else {
        Seq::empty()
    }) + entries_lines(t, start as int, end, sat_sub(width as int, 6) as nat)
}

fn push_entry_lines(out: &mut Vec<Vec<Span>>, e: &TraceEntry, w: usize)
    requires
        entry_clips(*e, w as nat),
    ensures
        lines_view(final(out)@) == lines_view(old(out)@) + entry_lines(*e, w as nat),
{
    let ghost start = lines_view(out@);
    let ghost want = entry_lines(*e, w as nat);
    let rq = crate::text::utf8_len(e.req.as_str());
    let rs = e.resp.unicode_len();
    if e.ok {
        let mut a = string_of(" ▸ ");
        push_str(&mut a, e.fc.as_str());
        let mut b = string_of("   req ");
        crate::text::push_dec_wide(&mut b, (rq + 1) / 3);
        push_str(&mut b, " B → resp ");
        crate::text::push_dec_wide(&mut b, (crate::text::utf8_len(e.resp.as_str()) + 1) / 3);
        push_str(&mut b, " B · ");
        push_dec(&mut b, e.ms);
        push_str(&mut b, " ms · ");
        push_str(&mut b, if crate::text::str_eq(e.transport, "TCP") {
            "TCP (MBAP, no CRC)"
        } else {
            "CRC ok"
        });
        proof {
            assert(b@ =~= want[0][1].0);
            assert(a@ =~= want[0][0].0);
            assert(want[0] =~= seq![(a@, Tone::GreenBold), (b@, Tone::Dim)]);
        }
        push_line(out, line2(owned(a, Tone::GreenBold), owned(b, Tone::Dim)));
    } else {
        let mut a = string_of(" ✖ ");
        push_str(&mut a, e.fc.as_str());
        let mut b = string_of("   req ");
        crate::text::push_dec_wide(&mut b, (rq + 1) / 3);
        push_str(&mut b, " B → ");
        match &e.err {
            Some(m) => push_str(&mut b, m.as_str()),
            None => push_str(&mut b, "no response"),
        }
        push_str(&mut b, " · ");
        push_dec(&mut b, e.ms);
        push_str(&mut b, " ms");
        proof {
            assert(b@ =~= want[0][1].0);
            assert(a@ =~= want[0][0].0);
            assert(want[0] =~= seq![(a@, Tone::RedBold), (b@, Tone::Red)]);
        }
        push_line(out, line2(owned(a, Tone::RedBold), owned(b, Tone::Red)));
    }
    proof {
        assert(lines_view(out@) =~= start.push(want[0]));
    }
    let rq_hex = crate::ui::clip_hex(e.req.as_str(), w);
    push_line(out, line2(span("   → ", Tone::Dim), owned(rq_hex, Tone::Cyan)));
    if rs > 0 {
        let rs_hex = crate::ui::clip_hex(e.resp.as_str(), w);
        push_line(out, line2(span("   ← ", Tone::Dim), owned(rs_hex, Tone::Yellow)));
    }
    proof {
        assert(lines_view(out@) =~= start + entry_lines(*e, w as nat));
    }
}

/// Whether every transaction on the page can have its dumps cut to the
/// view's width less 6 columns (see `entry_clips`); the page's other
/// transactions are not drawn and do not matter.
pub open spec fn bus_clips(t: Seq<TraceEntry>, scroll: nat, page_h: nat, width: nat) -> bool {
    let start = bus_start(t.len(), page_h, scroll);
    forall|i: int|
        start <= i < start + bus_count(t.len(), page_h) && 0 <= i < t.len() ==> entry_clips(
            #[trigger] t[i],
            sat_sub(width as int, 6) as nat,
        )
}

/// Whether both dumps of a transaction can be cut to `w` columns (see
/// `entry_clips`).
pub fn entry_clips_ok(e: &TraceEntry, w: usize) -> (r: bool)
    ensures
        r == entry_clips(*e, w as nat),
{
    crate::ui::clip_fits(e.req.as_str(), w) && crate::ui::clip_fits(e.resp.as_str(), w)
}

/// The transactions the bus view draws, `start .. end`, and the width its
/// dumps are cut to (see `spec_bus_lines`).
pub fn bus_window(total: usize, scroll: usize, page_h: usize, width: u16) -> (r: (usize, usize, usize))
    requires
        scroll * (if page_h < 1 {
            1
        } else {
            page_h
        }) <= usize::MAX,
    ensures
        r.0 == bus_start(total as nat, page_h as nat, scroll as nat),
        r.1 == (if r.0 + bus_count(total as nat, page_h as nat) < total {
            r.0 + bus_count(total as nat, page_h as nat)
        } else {
            total as int
        }),
        r.2 == sat_sub(width as int, 6),
{
    let page: usize = if page_h < 1 {
        1
    } else {
        page_h
    };
    let max_start: usize = if total >= page_h {
        total - page_h
    } else {
        0
    };
    let start: usize = if scroll == 0 {
        max_start
    } else {
        let back = scroll * page;
        let s = if max_start >= back {
            max_start - back
        } else {
            0
        };
        if s < max_start {
            s
        } else {
            max_start
        }
    };
    let fit: usize = (if page_h >= 2 {
        page_h - 2
    } else {
        0
    }) / 2;
    let most: usize = if total < 1 {
        1
    } else {
        total
    };
    let count: usize = if fit < most {
        fit
    } else {
        most
    };
    let end: usize = if start < total && count < total - start {
        start + count
    } else {
        total
    };
    let w: usize = if width >= 6 {
        (width - 6) as usize
    } else {
        0
    };
    (start, end, w)
}

/// The bus view (see `spec_bus_lines`): `scroll` pages back from the live
/// tail, on a view `page_h` rows high and `width` columns wide.
pub fn bus_lines(t: &[TraceEntry], scroll: usize, page_h: usize, width: u16, emu: bool, connected: bool) -> (r: Vec<
    Vec<Span>,
>)
    requires
        bus_clips(t@, scroll as nat, page_h as nat, width as nat),
        scroll * (if page_h < 1 {
            1
        } else {
            page_h
        }) <= usize::MAX,
    ensures
        lines_view(r@) == spec_bus_lines(t@, scroll as nat, page_h as nat, width as nat, emu, connected),
{
    let total = t.len();
    let (start, end, w) = bus_window(total, scroll, page_h, width);
    let mut out: Vec<Vec<Span>> = Vec::new();
    if total == 0 {
        push_line(&mut out, line1(span(" No Modbus traffic yet.", Tone::Dim)));
        push_line(&mut out, line1(span(if emu {
            " Emulator: кадры появляются при каждом опросе (или после [e])."
        } else if connected {
            " Ждём первый опрос — откройте вкладку Dashboard и подождите 0.5 сек."
        } else {
            " Запустите эмулятор ([e]) или подключите порт ([c] на вкладке Ports)."
        }, Tone::Dim)));
        push_line(&mut out, line1(span(" Каждый опрос = 3 транзакции по шине: READ INPUT (T/P), READ COILS, READ HOLDING.", Tone::Dim)));
        push_line(&mut out, line1(span(" TCP-запросы от клиентов (вкладка Ports → [t]) тоже попадают сюда, помеченные TCP.", Tone::Dim)));
    }
    let ghost head = lines_view(out@);
    let ghost sp = bus_start(total as nat, page_h as nat, scroll as nat);
    proof {
        assert(start == sp);
        assert(end == (if sp + bus_count(total as nat, page_h as nat) < total {
            (sp + bus_count(total as nat, page_h as nat)) as int
        } else {
            total as int
        }));
    }
    let mut i: usize = start;
    while i < end
        invariant
            start <= i <= end <= t@.len(),
            forall|j: int| start <= j < end ==> entry_clips(#[trigger] t@[j], w as nat),
            lines_view(out@) == head + entries_lines(t@, start as int, i as int, w as nat),
        decreases end - i,
    {
        push_entry_lines(&mut out, &t[i], w);
        i = i + 1;
    }
    proof {
        assert(lines_view(out@) =~= spec_bus_lines(t@, scroll as nat, page_h as nat, width as nat, emu, connected));
    }
    out
}

/// The title of the bus view.
pub open spec fn spec_bus_title(total: nat, scroll: nat) -> Seq<char> {
    if total > 0 {
        " Bus — Modbus frame log (RTU hex + TCP MBAP) ("@ + dec(total) + ") (↑↓/wheel)"@ + (if scroll > 0 {
            " [scrolled "@ + dec(scroll) + " screens]"@
        } else {
            ""@
        }) + " "@
    } else {
        " Bus — Modbus frame log (RTU hex + TCP MBAP) "@
    }
}

/// The title of the bus view.
pub fn bus_title(total: usize, scroll: usize) -> (r: String)
    ensures
        r@ == spec_bus_title(total as nat, scroll as nat),
{
    if total > 0 {
        let mut s = string_of(" Bus — Modbus frame log (RTU hex + TCP MBAP) (");
        push_dec(&mut s, total as u64);
        push_str(&mut s, ") (↑↓/wheel)");
        if scroll > 0 {
            push_str(&mut s, " [scrolled ");
            push_dec(&mut s, scroll as u64);
            push_str(&mut s, " screens]");
        }
        push_str(&mut s, " ");
        proof {
            reveal_strlit("");
            assert(s@ =~= spec_bus_title(total as nat, scroll as nat));
        }
        s
    } else {
        string_of(" Bus — Modbus frame log (RTU hex + TCP MBAP) ")
    }
}

/// The tone of a log line of the given level.
pub open spec fn level_tone(level: u8) -> Tone {
    if level == 0 {
        Tone::Gray
    } else if level == 1 {
        Tone::Green
    } else if level == 2 {
        Tone::Yellow
    } else {
        Tone::Red
    }
}

/// The first log line shown: the scroll position, kept so that a page is
/// filled when there are enough lines.
pub open spec fn log_start(total: nat, page_h: nat, scroll: nat) -> nat {
    let m = sat_sub(total as int, page_h as int);
    (if scroll < m {
        scroll as int
    } else {
        m
    }) as nat
}

/// The log view: the lines of the page, each in the tone of its level.
pub open spec fn spec_log_lines(v: AppView, page_h: nat, scroll: nat) -> Seq<Seq<SpanView>> {
    let start = log_start(v.logs.len(), page_h, scroll);
    let end: int = if start + page_h < v.logs.len() {
        (start + page_h) as int
    } else {
        v.logs.len() as int
    };
    Seq::new(
        (end - start) as nat,
        |i: int| one(v.logs[start + i].text, level_tone(v.logs[start + i].level)),
    )
}

/// The title of the log view.
pub open spec fn spec_log_title(total: nat, start: nat, shown: nat) -> Seq<char> {
    " Log ("@ + dec(total) + ")"@ + (if start > 0 {
        " [scrolled "@ + dec(start) + ".."@ + dec(start + shown) + "]"@
    } else {
        ""@
    }) + " "@
}

impl App {
    /// The log view and its title (see `spec_log_lines`), `scroll` lines
    /// down on a view `page_h` rows high.
    pub fn log_lines(&self, page_h: usize, scroll: usize) -> (r: (Vec<Vec<Span>>, String))
        ensures
            lines_view(r.0@) == spec_log_lines(self@, page_h as nat, scroll as nat),
            r.1@ == spec_log_title(
                self@.logs.len(),
                log_start(self@.logs.len(), page_h as nat, scroll as nat),
                spec_log_lines(self@, page_h as nat, scroll as nat).len(),
            ),
    {
        let total = self.logs.len();
        let m: usize = if total >= page_h {
            total - page_h
        } else {
            0
        };
        let start: usize = if scroll < m {
            scroll
        } else {
            m
        };
        let end: usize = if page_h < total - start {
            start + page_h
        } else {
            total
        };
        let mut out: Vec<Vec<Span>> = Vec::new();
        let mut i: usize = start;
        while i < end
            invariant
                start <= i <= end <= self@.logs.len(),
                lines_view(out@) == Seq::new(
                    (i - start) as nat,
                    |k: int| one(self@.logs[start + k].text, level_tone(self@.logs[start + k].level)),
                ),
            decreases end - i,
        {
            let l = &self.logs[i];
            proof {
                assert(self@.logs[i as int] == l@);
            }
            let tone = if l.level == 0 {
                Tone::Gray
            } else if l.level == 1 {
                Tone::Green
            } else if l.level == 2 {
                Tone::Yellow
            } else {
                Tone::Red
            };
            push_line(&mut out, line1(span(l.text.as_str(), tone)));
            i = i + 1;
            proof {
                assert(lines_view(out@) =~= Seq::new(
                    (i - start) as nat,
                    |k: int| one(self@.logs[start + k].text, level_tone(self@.logs[start + k].level)),
                ));
            }
        }
        let mut title = string_of(" Log (");
        push_dec(&mut title, total as u64);
        push_str(&mut title, ")");
        if start > 0 {
            push_str(&mut title, " [scrolled ");
            push_dec(&mut title, start as u64);
            push_str(&mut title, "..");
            push_dec(&mut title, (start as u64) + ((end - start) as u64));
            push_str(&mut title, "]");
        }
        push_str(&mut title, " ");
        proof {
            reveal_strlit("");
            assert(lines_view(out@) =~= spec_log_lines(self@, page_h as nat, scroll as nat));
            assert(title@ =~= spec_log_title(
                self@.logs.len(),
                log_start(self@.logs.len(), page_h as nat, scroll as nat),
                spec_log_lines(self@, page_h as nat, scroll as nat).len(),
            ));
        }
        (out, title)
    }
}

/// The part of the help page shown: from the scroll position (kept so that
/// a page is filled) to the end of the page or of the text.
pub open spec fn spec_help_window(len: nat, page_h: nat, scroll: nat) -> (nat, nat) {
    let m = sat_sub(len as int, page_h as int);
    let start: int = if scroll < m {
        scroll as int
    } else {
        m
    };
    (start as nat, (if start + page_h < len {
        start + page_h
    } else {
        len as int
    }) as nat)
}

/// The part of a text of `len` lines shown on a view `page_h` rows high,
/// `scroll` lines down (see `spec_help_window`).
pub fn help_window(len: usize, page_h: usize, scroll: usize) -> (r: (usize, usize))
    ensures
        (r.0 as nat, r.1 as nat) == spec_help_window(len as nat, page_h as nat, scroll as nat),
        r.0 <= r.1 <= len,
{
    let m: usize = if len >= page_h {
        len - page_h
    } else {
        0
    };
    let start: usize = if scroll < m {
        scroll
    } else {
        m
    };
    let end: usize = if page_h < len - start {
        start + page_h
    } else {
        len
    };
    (start, end)
}

} // verus!
