//! Serial port discovery: which ports look like ESP development boards, how
//! they are described, which of them the scanner probes, and which slave
//! answers a probe.

use crate::app_state::{opt_view, PortInfo, PortView};
use crate::collections::{lowercase, str_lowercase};
use crate::text::{chars_of, push_str, str_eq, string_of, trim, trimmed};
use vstd::prelude::*;

verus! {

/// USB vendor ids of the USB-UART bridges found on ESP boards: Silicon Labs
/// CP210x, WCH CH340/CH9102, FTDI, Espressif, Arduino and two debug probes.
pub open spec fn spec_esp_vendor(vid: u16) -> bool {
    vid == 0x10C4 || vid == 0x1A86 || vid == 0x0403 || vid == 0x303A || vid == 0x2341 || vid
        == 0x21A8 || vid == 0x2C64
}

/// Whether `vid` is one of the known ESP board bridge vendors.
pub fn is_esp_vendor(vid: u16) -> (r: bool)
    ensures
        r == spec_esp_vendor(vid),
{
    vid == 0x10C4 || vid == 0x1A86 || vid == 0x0403 || vid == 0x303A || vid == 0x2341 || vid
        == 0x21A8 || vid == 0x2C64
}

/// Every USB vendor of the supported bridges and boards is taken for an ESP
/// board: Silicon Labs CP210x (0x10C4), WCH CH340 (0x1A86), FTDI (0x0403),
/// Espressif's native USB (0x303A, ESP32-S3 and the like), Arduino
/// (0x2341), and 0x21A8 and 0x2C64. A USB port with such a vendor is
/// reported as ESP-like whatever its name.
pub proof fn lemma_known_vendors_are_esp(name: Seq<char>, usb: UsbInfo)
    requires
        usb.vid == 0x10C4 || usb.vid == 0x1A86 || usb.vid == 0x0403 || usb.vid == 0x303A || usb.vid
            == 0x2341 || usb.vid == 0x21A8 || usb.vid == 0x2C64,
    ensures
        spec_esp_vendor(usb.vid),
        spec_port_info(name, PortKind::Usb(usb)).is_esp_like,
{
}

/// What the system reports of a USB serial port.
pub struct UsbInfo {
    pub vid: u16,
    pub pid: u16,
    pub manufacturer: Option<String>,
    pub product: Option<String>,
    pub serial_number: Option<String>,
}

/// The kind of a serial port, as the system reports it.
pub enum PortKind {
    Usb(UsbInfo),
    Bluetooth,
    Pci,
    Unknown,
}

/// Whether `t` occurs in `s` as a contiguous run.
pub open spec fn contains_seq(s: Seq<char>, t: Seq<char>) -> bool {
    exists|i: int| 0 <= i && i + t.len() <= s.len() && #[trigger] s.subrange(i, i + t.len()) == t
}

fn run_at(s: &[char], t: &[char], i: usize) -> (r: bool)
    requires
        i + t@.len() <= s@.len(),
    ensures
        r == (s@.subrange(i as int, i + t@.len()) == t@),
{
    let slen = s.len();
    let mut k: usize = 0;
    while k < t.len()
        invariant
            k <= t@.len(),
            slen == s@.len(),
            i + t@.len() <= s@.len(),
            forall|j: int| 0 <= j < k ==> s@[i + j] == t@[j],
        decreases t@.len() - k,
    {
        if s[i + k] != t[k] {
            proof {
                assert(s@.subrange(i as int, i + t@.len())[k as int] != t@[k as int]);
            }
            return false;
        }
        k = k + 1;
    }
    proof {
        assert(s@.subrange(i as int, i + t@.len()) =~= t@);
    }
    true
}

/// Whether `t` occurs in `s`, as `str::contains` tells it.
pub fn str_contains(s: &str, t: &str) -> (r: bool)
    ensures
        r == contains_seq(s@, t@),
{
    let sc = chars_of(s);
    let tc = chars_of(t);
    if tc.len() > sc.len() {
        return false;
    }
    let last = sc.len() - tc.len();
    let mut i: usize = 0;
    loop
        invariant
            sc@ == s@,
            tc@ == t@,
            last + tc@.len() == sc@.len(),
            i <= last,
            forall|j: int| 0 <= j < i ==> #[trigger] s@.subrange(j, j + t@.len()) != t@,
        decreases last - i,
    {
        if run_at(sc.as_slice(), tc.as_slice(), i) {
            return true;
        }
        if i == last {
            return false;
        }
        i = i + 1;
    }
}

/// The string, or the empty string for none.
pub open spec fn or_empty(o: Option<Seq<char>>) -> Seq<char> {
    match o {
        Some(s) => s,
        None => Seq::empty(),
    }
}

/// The string when it is not empty.
pub open spec fn non_empty(o: Option<Seq<char>>) -> Option<Seq<char>> {
    match o {
        Some(s) => if s.len() > 0 {
            Some(s)
        } else {
            None
        },
        None => None,
    }
}

fn copy_or_empty(o: &Option<String>) -> (r: String)
    ensures
        r@ == or_empty(opt_view(*o)),
{
    match o {
        Some(s) => {
            let r = string_of(s.as_str());
            proof {
                assert(opt_view(*o) == Some(s@));
            }
            r
        },
        None => {
            let r = String::new();
            proof {
                assert(r@ =~= Seq::<char>::empty());
            }
            r
        },
    }
}

fn copy_non_empty(o: &Option<String>) -> (r: Option<String>)
    ensures
        opt_view(r) == non_empty(opt_view(*o)),
{
    match o {
        Some(s) => if s.unicode_len() > 0 {
            Some(string_of(s.as_str()))
        } else {
            None
        },
        None => None,
    }
}

fn copy_opt(o: &Option<String>) -> (r: Option<String>)
    ensures
        opt_view(r) == opt_view(*o),
{
    match o {
        Some(s) => Some(string_of(s.as_str())),
        None => None,
    }
}

/// How a port is described: `USB: <manufacturer> <product>` trimmed for a
/// USB port, else `Bluetooth`, `PCI` or `Serial`.
pub open spec fn spec_describe(k: PortKind) -> Seq<char> {
    match k {
        PortKind::Usb(u) => trim(
            "USB: "@ + or_empty(opt_view(u.manufacturer)) + " "@ + or_empty(opt_view(u.product)),
        ),
        PortKind::Bluetooth => "Bluetooth"@,
        PortKind::Pci => "PCI"@,
        PortKind::Unknown => "Serial"@,
    }
}

/// The description of a port.
pub fn describe_port(k: &PortKind) -> (r: String)
    ensures
        r@ == spec_describe(*k),
{
    match k {
        PortKind::Usb(u) => {
            let mut s = string_of("USB: ");
            let m = copy_or_empty(&u.manufacturer);
            push_str(&mut s, m.as_str());
            push_str(&mut s, " ");
            let p = copy_or_empty(&u.product);
            push_str(&mut s, p.as_str());
            trimmed(s.as_str())
        },
        PortKind::Bluetooth => string_of("Bluetooth"),
        PortKind::Pci => string_of("PCI"),
        PortKind::Unknown => string_of("Serial"),
    }
}

/// A port whose lower-cased name mentions `esp` or `usb` is taken for an
/// ESP board.
pub open spec fn esp_by_name(name: Seq<char>) -> bool {
    contains_seq(str_lowercase(name), "esp"@) || contains_seq(str_lowercase(name), "usb"@)
}

/// The entry of a freshly found port: ESP-like by USB vendor or by name, no
/// firmware seen yet, with the USB strings (empty product and serial number
/// left out).
pub open spec fn spec_port_info(name: Seq<char>, k: PortKind) -> PortView {
    PortView {
        name,
        description: spec_describe(k),
        is_esp_like: (k matches PortKind::Usb(u) && spec_esp_vendor(u.vid)) || esp_by_name(name),
        has_firmware: false,
        manufacturer: match k {
            PortKind::Usb(u) => opt_view(u.manufacturer),
            _ => None,
        },
        product: match k {
            PortKind::Usb(u) => non_empty(opt_view(u.product)),
            _ => None,
        },
        serial: match k {
            PortKind::Usb(u) => non_empty(opt_view(u.serial_number)),
            _ => None,
        },
    }
}

/// The entry of the port `name` of kind `k`.
pub fn to_port_info(name: &str, k: &PortKind) -> (r: PortInfo)
    ensures
        r@ == spec_port_info(name@, *k),
{
    let lower = lowercase(name);
    let by_name = str_contains(lower.as_str(), "esp") || str_contains(lower.as_str(), "usb");
    let (by_vendor, manufacturer, product, serial) = match k {
        PortKind::Usb(u) => (
            is_esp_vendor(u.vid),
            copy_opt(&u.manufacturer),
            copy_non_empty(&u.product),
            copy_non_empty(&u.serial_number),
        ),
        _ => (false, None, None, None),
    };
    let r = PortInfo {
        name: string_of(name),
        description: describe_port(k),
        is_esp_like: by_vendor || by_name,
        has_firmware: false,
        manufacturer,
        product,
        serial,
    };
    proof {
        assert(r@ =~= spec_port_info(name@, *k));
    }
    r
}

/// A product string naming an on-chip debug interface (USB-JTAG): such a
/// port is no Modbus target.
pub open spec fn is_debug_product(p: Option<Seq<char>>) -> bool {
    match p {
        Some(pr) => contains_seq(str_lowercase(pr), "jtag"@) || contains_seq(
            str_lowercase(pr),
            "debug unit"@,
        ),
        None => false,
    }
}

/// What the scanner does with a port it lists.
#[derive(PartialEq, Eq, Structural)]
pub enum ScanStep {
    /// Leave it alone.
    Skip,
    /// Remember it as tried, without probing (a debug interface).
    MarkTried,
    /// Remember it as tried and probe it for a Modbus slave.
    Probe,
}

/// The scanner probes each ESP-like port once per session, never the port
/// the poller holds, and never a debug interface.
pub open spec fn spec_scan_step(p: PortView, tried: Seq<Seq<char>>, busy: Option<Seq<char>>) -> ScanStep {
    if !p.is_esp_like || tried.contains(p.name) {
        ScanStep::Skip
    } else if busy == Some(p.name) {
        ScanStep::Skip
    } else if is_debug_product(p.product) {
        ScanStep::MarkTried
    } else {
        ScanStep::Probe
    }
}

/// The characters of each string.
pub open spec fn names_of(v: Seq<String>) -> Seq<Seq<char>> {
    v.map_values(|s: String| s@)
}

fn listed(names: &[String], name: &str) -> (r: bool)
    ensures
        r == names_of(names@).contains(name@),
{
    let mut i: usize = 0;
    while i < names.len()
        invariant
            i <= names@.len(),
            forall|j: int| 0 <= j < i ==> names@[j]@ != name@,
        decreases names@.len() - i,
    {
        if str_eq(names[i].as_str(), name) {
            proof {
                assert(names_of(names@)[i as int] == name@);
            }
            return true;
        }
        i = i + 1;
    }
    proof {
        if names_of(names@).contains(name@) {
            let j = choose|j: int| 0 <= j < names_of(names@).len() && names_of(names@)[j] == name@;
            assert(names@[j]@ == name@);
        }
    }
    false
}

fn debug_product(p: &Option<String>) -> (r: bool)
    ensures
        r == is_debug_product(opt_view(*p)),
{
    match p {
        Some(pr) => {
            let lower = lowercase(pr.as_str());
            str_contains(lower.as_str(), "jtag") || str_contains(lower.as_str(), "debug unit")
        },
        None => false,
    }
}

/// What the scanner does with port `p`, given the ports already tried and
/// the port the poller holds.
pub fn scan_step(p: &PortInfo, tried: &[String], busy: Option<&str>) -> (r: ScanStep)
    ensures
        r == spec_scan_step(p@, names_of(tried@), match busy {
            Some(b) => Some(b@),
            None => None,
        }),
{
    if !p.is_esp_like || listed(tried, p.name.as_str()) {
        return ScanStep::Skip;
    }
    match busy {
        Some(b) => {
            if str_eq(b, p.name.as_str()) {
                return ScanStep::Skip;
            }
        },
        None => {},
    }
    if debug_product(&p.product) {
        ScanStep::MarkTried
    } else {
        ScanStep::Probe
    }
}

/// First slave id that a probe tries.
pub const PROBE_FIRST: u8 = 1;

/// Last slave id that a probe tries.
pub const PROBE_LAST: u8 = 15;

/// What a probe does after asking one slave id.
#[derive(PartialEq, Eq, Structural)]
pub enum ProbeStep {
    /// This slave answered: the firmware is there.
    Found(u8),
    /// Ask this slave id next.
    Next(u8),
    /// No slave id answered.
    NotFound,
}

/// Whether a reply to the probe's read of one holding register counts as
/// an answer: the read succeeded and gave at least one register. `None`
/// stands for a failed read, `Some(n)` for a read that gave `n` registers.
pub open spec fn answered(reply: Option<usize>) -> bool {
    reply matches Some(n) && n > 0
}

/// The step after asking `slave`.
pub open spec fn spec_probe_step(slave: u8, reply: Option<usize>) -> ProbeStep {
    if answered(reply) {
        ProbeStep::Found(slave)
    } else if slave < PROBE_LAST {
        ProbeStep::Next((slave + 1) as u8)
    } else {
        ProbeStep::NotFound
    }
}

/// The probe's decision after asking slave `slave` (1 to 15) for one
/// holding register and getting `reply`.
pub fn probe_step(slave: u8, reply: Option<usize>) -> (r: ProbeStep)
    requires
        PROBE_FIRST <= slave <= PROBE_LAST,
    ensures
        r == spec_probe_step(slave, reply),
{
    let ok = match reply {
        Some(n) => n > 0,
        None => false,
    };
    if ok {
        ProbeStep::Found(slave)
    } else if slave < PROBE_LAST {
        ProbeStep::Next(slave + 1)
    } else {
        ProbeStep::NotFound
    }
}

/// The first slave id among 1 to 15 whose reply (at index `id - 1`) is an
/// answer, looking from index `k` on.
pub open spec fn first_answer_from(replies: Seq<Option<usize>>, k: int) -> Option<u8>
    decreases PROBE_LAST - k,
{
    if k < 0 || k >= PROBE_LAST || k >= replies.len() {
        None
    } else if answered(replies[k]) {
        Some((k + 1) as u8)
    } else {
        first_answer_from(replies, k + 1)
    }
}

/// The result of a probe whose reads for slave ids 1, 2, ... gave
/// `replies`: the first id that answered, if any among 1 to 15.
pub fn probe_modbus(replies: &[Option<usize>]) -> (r: Option<u8>)
    ensures
        r == first_answer_from(replies@, 0),
{
    let mut slave: u8 = PROBE_FIRST;
    loop
        invariant
            PROBE_FIRST <= slave <= PROBE_LAST,
            first_answer_from(replies@, 0) == first_answer_from(replies@, slave - 1),
        decreases PROBE_LAST - slave,
    {
        let k = (slave - 1) as usize;
        if k >= replies.len() {
            proof {
                assert(first_answer_from(replies@, k as int) == None::<u8>);
            }
            return None;
        }
        match probe_step(slave, replies[k]) {
            ProbeStep::Found(s) => {
                return Some(s);
            },
            ProbeStep::Next(s) => {
                slave = s;
            },
            ProbeStep::NotFound => {
                proof {
                    assert(first_answer_from(replies@, slave as int) == None::<u8>);
                }
                return None;
            },
        }
    }
}

/// A probe reports a slave id from 1 to 15 that answered, and no lower id
/// answered; it reports none only when no id from 1 to 15 answered.
pub proof fn lemma_probe_finds_first(replies: Seq<Option<usize>>, k: int)
    requires
        0 <= k <= PROBE_LAST,
    ensures
        first_answer_from(replies, k) matches Some(id) ==> {
            &&& k + 1 <= id <= PROBE_LAST
            &&& id - 1 < replies.len()
            &&& answered(replies[id - 1])
            &&& forall|j: int| k <= j < id - 1 ==> !answered(#[trigger] replies[j])
        },
        first_answer_from(replies, k) is None ==> forall|j: int|
            k <= j < PROBE_LAST && j < replies.len() ==> !answered(#[trigger] replies[j]),
    decreases PROBE_LAST - k,
{
    if k < PROBE_LAST && k < replies.len() && !answered(replies[k]) {
        lemma_probe_finds_first(replies, k + 1);
    }
}

} // verus!
