//! Screen layout arithmetic of the terminal front end: the tab bar, list
//! rows under the mouse, the dashboard's row map and clipped hex dumps.

use crate::text::push_char;
use vstd::prelude::*;
use vstd::string::StringSliceAdditionalSpecFns;
use vstd::utf8::{decode_utf8, encode_utf8, encode_utf8_decode_utf8, is_char_boundary};

verus! {

/// Rows taken by the header (tab bar and its frame) above a tab's body.
pub const HEADER_ROWS: u16 = 3;

/// Rows taken by the footer (two hint lines and a frame).
pub const FOOTER_ROWS: u16 = 4;

/// The tabs of the interface, in display order.
#[derive(Debug, Clone, Copy, PartialEq, Eq, Structural)]
pub enum Tab {
    Dashboard,
    Ports,
    Registers,
    Sensors,
    Firmware,
    Bus,
    Log,
    Help,
}

/// Number of tabs.
pub const TAB_COUNT: usize = 8;

/// Position of a tab in the tab bar.
pub open spec fn tab_index(t: Tab) -> nat {
    match t {
        Tab::Dashboard => 0,
        Tab::Ports => 1,
        Tab::Registers => 2,
        Tab::Sensors => 3,
        Tab::Firmware => 4,
        Tab::Bus => 5,
        Tab::Log => 6,
        Tab::Help => 7,
    }
}

/// The tab at position `i` (0 to 7).
pub open spec fn tab_at(i: nat) -> Tab {
    if i == 0 {
        Tab::Dashboard
    } else if i == 1 {
        Tab::Ports
    } else if i == 2 {
        Tab::Registers
    } else if i == 3 {
        Tab::Sensors
    } else if i == 4 {
        Tab::Firmware
    } else if i == 5 {
        Tab::Bus
    } else if i == 6 {
        Tab::Log
    } else {
        Tab::Help
    }
}

/// Title shown in the tab bar.
pub open spec fn spec_title(t: Tab) -> Seq<char> {
    match t {
        Tab::Dashboard => "Dashboard"@,
        Tab::Ports => "Ports"@,
        Tab::Registers => "Registers"@,
        Tab::Sensors => "Sensors"@,
        Tab::Firmware => "Firmware"@,
        Tab::Bus => "Bus"@,
        Tab::Log => "Log"@,
        Tab::Help => "Help"@,
    }
}

/// Width of a tab's title, in columns.
pub open spec fn title_width(t: Tab) -> nat {
    match t {
        Tab::Dashboard => 9,
        Tab::Ports => 5,
        Tab::Registers => 9,
        Tab::Sensors => 7,
        Tab::Firmware => 8,
        Tab::Bus => 3,
        Tab::Log => 3,
        Tab::Help => 4,
    }
}

/// First column of the title of the tab at position `i`: one column of left
/// padding, then each earlier title followed by a gap of four columns.
pub open spec fn tab_start(i: nat) -> nat
    decreases i,
{
    if i == 0 {
        1
    } else {
        tab_start((i - 1) as nat) + title_width(tab_at((i - 1) as nat)) + 4
    }
}

proof fn lemma_tab_start_below(k: nat)
    requires
        k < 8,
    ensures
        tab_start(k) + title_width(tab_at(k)) + 4 <= 81,
    decreases 8 - k,
{
    if k < 7 {
        lemma_tab_start_below(k + 1);
    } else {
        reveal_with_fuel(tab_start, 9);
    }
}

/// Whether column `col` lies on the title of the tab at position `i`.
pub open spec fn on_title(i: nat, col: int) -> bool {
    tab_start(i) <= col < tab_start(i) + title_width(tab_at(i))
}

/// Every title is as wide as its text.
pub proof fn lemma_title_width(t: Tab)
    ensures
        title_width(t) == spec_title(t).len(),
{
    reveal_strlit("Dashboard");
    reveal_strlit("Ports");
    reveal_strlit("Registers");
    reveal_strlit("Sensors");
    reveal_strlit("Firmware");
    reveal_strlit("Bus");
    reveal_strlit("Log");
    reveal_strlit("Help");
}

impl Tab {
    /// The tab at position `i` of the tab bar.
    pub fn from_index(i: usize) -> (r: Tab)
        requires
            i < TAB_COUNT,
        ensures
            r == tab_at(i as nat),
            tab_index(r) == i,
    {
        if i == 0 {
            Tab::Dashboard
        } else if i == 1 {
            Tab::Ports
        } else if i == 2 {
            Tab::Registers
        } else if i == 3 {
            Tab::Sensors
        } else if i == 4 {
            Tab::Firmware
        } else if i == 5 {
            Tab::Bus
        } else if i == 6 {
            Tab::Log
        } else {
            Tab::Help
        }
    }

    /// Position of this tab in the tab bar.
    pub fn index(&self) -> (r: usize)
        ensures
            r == tab_index(*self),
            r < TAB_COUNT,
            tab_at(r as nat) == *self,
    {
        match self {
            Tab::Dashboard => 0,
            Tab::Ports => 1,
            Tab::Registers => 2,
            Tab::Sensors => 3,
            Tab::Firmware => 4,
            Tab::Bus => 5,
            Tab::Log => 6,
            Tab::Help => 7,
        }
    }

    /// Title shown in the tab bar.
    pub fn title(&self) -> (r: &'static str)
        ensures
            r@ == spec_title(*self),
    {
        match self {
            Tab::Dashboard => "Dashboard",
            Tab::Ports => "Ports",
            Tab::Registers => "Registers",
            Tab::Sensors => "Sensors",
            Tab::Firmware => "Firmware",
            Tab::Bus => "Bus",
            Tab::Log => "Log",
            Tab::Help => "Help",
        }
    }

    /// Width of the title in columns.
    pub fn title_width(&self) -> (r: u16)
        ensures
            r == title_width(*self),
    {
        match self {
            Tab::Dashboard => 9,
            Tab::Ports => 5,
            Tab::Registers => 9,
            Tab::Sensors => 7,
            Tab::Firmware => 8,
            Tab::Bus => 3,
            Tab::Log => 3,
            Tab::Help => 4,
        }
    }

    /// The tab to the right, wrapping from the last to the first.
    pub fn next(&self) -> (r: Tab)
        ensures
            r == tab_at(((tab_index(*self) + 1) % 8) as nat),
    {
        let i = self.index();
        Tab::from_index((i + 1) % TAB_COUNT)
    }

    /// The tab to the left, wrapping from the first to the last.
    pub fn prev(&self) -> (r: Tab)
        ensures
            r == tab_at(((tab_index(*self) + 7) % 8) as nat),
    {
        let i = self.index();
        Tab::from_index((i + TAB_COUNT - 1) % TAB_COUNT)
    }
}

/// `next` and `prev` undo each other, and eight steps of `next` come back to
/// the start.
pub proof fn lemma_next_prev_inverse(t: Tab)
    ensures
        tab_at(((tab_index(tab_at(((tab_index(t) + 1) % 8) as nat)) + 7) % 8) as nat) == t,
        tab_at(((tab_index(tab_at(((tab_index(t) + 7) % 8) as nat)) + 1) % 8) as nat) == t,
{
}

/// The tab under column `col` of the tab bar, if any.
pub open spec fn tab_at_col_spec(col: u16) -> Option<usize> {
    if exists|i: nat| i < 8 && on_title(i, col as int) {
        Some((choose|i: nat| i < 8 && on_title(i, col as int)) as usize)
    } else {
        None
    }
}

/// Titles do not overlap: at most one lies under a column.
pub proof fn lemma_titles_disjoint(i: nat, j: nat, col: int)
    requires
        i < 8,
        j < 8,
        on_title(i, col),
        on_title(j, col),
    ensures
        i == j,
{
    reveal_with_fuel(tab_start, 9);
}

/// A title found under `col` is the one `tab_at_col_spec` names.
pub proof fn lemma_tab_at_col_unique(col: u16, i: nat)
    requires
        i < 8,
        on_title(i, col as int),
    ensures
        tab_at_col_spec(col) == Some(i as usize),
{
    let j = choose|j: nat| j < 8 && on_title(j, col as int);
    lemma_titles_disjoint(i, j, col as int);
}

/// No title under `col`: `tab_at_col_spec` names none.
pub proof fn lemma_tab_at_col_none(col: u16)
    requires
        forall|i: nat| i < 8 ==> !#[trigger] on_title(i, col as int),
    ensures
        tab_at_col_spec(col) is None,
{
}

/// The tab whose title lies under column `col` of the tab bar, if any.
pub fn tab_at_col(col: u16) -> (r: Option<usize>)
    ensures
        match r {
            Some(i) => i < TAB_COUNT && on_title(i as nat, col as int),
            None => forall|i: nat| i < 8 ==> !#[trigger] on_title(i, col as int),
        },
{
    let mut x: u16 = 1;
    let mut i: usize = 0;
    while i < TAB_COUNT
        invariant
            i <= TAB_COUNT,
            x == tab_start(i as nat),
            x <= 81,
            forall|j: nat| j < i ==> !#[trigger] on_title(j, col as int),
            forall|j: nat| j < i ==> #[trigger] tab_start(j) + title_width(tab_at(j)) <= tab_start(i as nat),
        decreases TAB_COUNT - i,
    {
        let t = Tab::from_index(i);
        let w = t.title_width();
        proof {
            lemma_tab_start_below(i as nat);
        }
        if col >= x && col < x + w {
            return Some(i);
        }
        proof {
            assert(tab_start((i + 1) as nat) == tab_start(i as nat) + title_width(tab_at(i as nat)) + 4);
        }
        x = x + w + 4;
        i = i + 1;
    }
    None
}

/// The list entry under body row `y` of a bordered list of `len` entries:
/// row 0 is the top border, row `k` shows entry `k - 1`.
pub fn list_index_at(y: u16, len: usize) -> (r: Option<usize>)
    ensures
        r == (if 1 <= y && y - 1 < len { Some((y - 1) as usize) } else { None::<usize> }),
{
    if y == 0 {
        return None;
    }
    let idx = (y - 1) as usize;
    if idx < len {
        Some(idx)
    } else {
        None
    }
}

/// `n` rows that select nothing.
pub open spec fn blank_rows(n: nat) -> Seq<Option<usize>> {
    Seq::new(n, |k: int| None::<usize>)
}

/// The rows one device takes on the dashboard: a blank separator, its header
/// (which selects it), one row per channel, and, when it has coils, a blank
/// line, a "Pumps:" caption and one row per coil.
pub open spec fn device_rows(di: nat, channels: nat, coils: nat) -> Seq<Option<usize>> {
    seq![None::<usize>, Some(di as usize)] + blank_rows(channels) + if coils > 0 {
        blank_rows(coils + 2)
    } else {
        Seq::<Option<usize>>::empty()
    }
}

/// The dashboard rows of the first `n` devices.
pub open spec fn dashboard_rows(channels: Seq<usize>, coils: Seq<usize>, n: nat) -> Seq<Option<usize>>
    decreases n,
{
    if n == 0 {
        Seq::empty()
    } else {
        dashboard_rows(channels, coils, (n - 1) as nat) + device_rows(
            (n - 1) as nat,
            channels[n - 1] as nat,
            coils[n - 1] as nat,
        )
    }
}

fn push_blank_rows(map: &mut Vec<Option<usize>>, n: usize)
    ensures
        final(map)@ == old(map)@ + blank_rows(n as nat),
{
    let mut k: usize = 0;
    while k < n
        invariant
            k <= n,
            map@ == old(map)@ + blank_rows(k as nat),
        decreases n - k,
    {
        map.push(None);
        k = k + 1;
        proof {
            assert(map@ =~= old(map)@ + blank_rows(k as nat));
        }
    }
}

/// Which device each body row of the dashboard's device list selects, for
/// devices with the given numbers of channels and coils. Nothing is listed
/// while there is no data and no connection (the body shows "No data").
pub fn dashboard_rows_for_devices(channels: &[usize], coils: &[usize], connected: bool) -> (r: Vec<
    Option<usize>,
>)
    requires
        channels@.len() == coils@.len(),
    ensures
        r@ == (if channels@.len() == 0 && !connected {
            Seq::<Option<usize>>::empty()
        } else {
            dashboard_rows(channels@, coils@, channels@.len())
        }),
{
    let mut map: Vec<Option<usize>> = Vec::new();
    if channels.len() == 0 && !connected {
        return map;
    }
    let mut di: usize = 0;
    while di < channels.len()
        invariant
            di <= channels@.len(),
            channels@.len() == coils@.len(),
            map@ == dashboard_rows(channels@, coils@, di as nat),
        decreases channels@.len() - di,
    {
        let ghost before = map@;
        map.push(None);
        map.push(Some(di));
        push_blank_rows(&mut map, channels[di]);
        if coils[di] > 0 {
            map.push(None);
            map.push(None);
            push_blank_rows(&mut map, coils[di]);
        }
        proof {
            let dr = device_rows(di as nat, channels@[di as int] as nat, coils@[di as int] as nat);
            if coils@[di as int] > 0 {
                assert(blank_rows((coils@[di as int] + 2) as nat) =~= seq![None::<usize>, None::<usize>]
                    + blank_rows(coils@[di as int] as nat));
            }
            assert(map@ =~= before + dr);
        }
        di = di + 1;
    }
    map
}

/// How many bytes of a dump that does not fit in `max` columns are kept:
/// `max - 1`, or for `max` up to 4 one or two.
pub open spec fn clip_keep(max: nat) -> nat {
    if max <= 4 {
        if max < 1 {
            1
        } else if max > 2 {
            2
        } else {
            max
        }
    } else {
        (max - 1) as nat
    }
}

/// A hex dump cut to at most `max` columns, counted in UTF-8 bytes: kept
/// whole when its bytes fit, else its first `clip_keep(max)` bytes and an
/// ellipsis.
pub open spec fn spec_clip_hex(s: Seq<char>, max: nat) -> Seq<char> {
    let b = encode_utf8(s);
    if b.len() <= max {
        s
    } else {
        decode_utf8(b.take(clip_keep(max) as int)).push('…')
    }
}

/// Whether a dump can be cut to `max` columns: it fits, or the cut falls on
/// a character boundary (elsewhere slicing the string panics).
pub open spec fn clip_ok(s: Seq<char>, max: nat) -> bool {
    let b = encode_utf8(s);
    b.len() <= max || is_char_boundary(b, clip_keep(max) as int)
}

/// Whether a dump can be cut to `max` columns (see `clip_ok`).
pub fn clip_fits(s: &str, max: usize) -> (r: bool)
    ensures
        r == clip_ok(s@, max as nat),
{
    if crate::text::utf8_len(s) <= max as u128 {
        return true;
    }
    let keep: usize = if max <= 4 {
        if max < 1 {
            1
        } else if max > 2 {
            2
        } else {
            max
        }
    } else {
        max - 1
    };
    s.is_char_boundary(keep)
}

/// Clips a hex dump to `max` columns (see `spec_clip_hex`).
pub fn clip_hex(s: &str, max: usize) -> (r: String)
    requires
        clip_ok(s@, max as nat),
    ensures
        r@ == spec_clip_hex(s@, max as nat),
{
    if crate::text::utf8_len(s) <= max as u128 {
        return crate::text::string_of(s);
    }
    let keep: usize = if max <= 4 {
        if max < 1 {
            1
        } else if max > 2 {
            2
        } else {
            max
        }
    } else {
        max - 1
    };
    let (head, _) = s.split_at(keep);
    let mut out = crate::text::string_of(head);
    push_char(&mut out, '…');
    proof {
        encode_utf8_decode_utf8(head@);
        assert(s.spec_bytes().subrange(0, keep as int) =~= encode_utf8(s@).take(keep as int));
    }
    out
}

} // verus!
