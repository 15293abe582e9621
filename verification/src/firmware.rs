//! Planning of the flash tool runs (board info, flashing, backup, restore)
//! and reading of the tool's output.
//!
//! The tool itself (`espflash`, `esptool` or `esptool.py`) runs as a child
//! process outside this library; here are the decisions around it: which
//! tool to use, which command line to hand it, how large a backup is, what
//! result a finished run gives, and the numbers read back from its output.

use crate::text::{
    chars_of, dec, is_digit, parse_usize_in, push_char, push_dec, push_str, spec_parse_usize, string_from,
    string_of, trim, trim_window,
};
use vstd::prelude::*;

verus! {

/// Outcome of a flash tool run: whether it succeeded, what it printed, and
/// the error text when it failed.
#[derive(Debug, Clone)]
pub struct FwResult {
    pub ok: bool,
    pub output: String,
    pub error: String,
}

impl FwResult {
    /// A successful run that printed `output`.
    pub fn success(output: String) -> (r: FwResult)
        ensures
            r.ok,
            r.output@ == output@,
            r.error@ == Seq::<char>::empty(),
    {
        FwResult { ok: true, output, error: String::new() }
    }

    /// A failed run with error text `error`.
    pub fn failure(error: String) -> (r: FwResult)
        ensures
            !r.ok,
            r.output@ == Seq::<char>::empty(),
            r.error@ == error@,
    {
        FwResult { ok: false, output: String::new(), error }
    }
}

/// The message of a run that found no flash tool.
pub open spec fn no_tool_text() -> Seq<char> {
    "No esptool available. Install: pip install esptool OR cargo install espflash"@
}

/// The failure reported when no flash tool is installed.
pub fn no_tool() -> (r: FwResult)
    ensures
        !r.ok,
        r.error@ == no_tool_text(),
        r.output@ == Seq::<char>::empty(),
{
    FwResult::failure(
        string_of("No esptool available. Install: pip install esptool OR cargo install espflash"),
    )
}

/// The result of a finished run: what it wrote to stdout followed by what
/// it wrote to stderr, as output on success and as the error otherwise.
pub fn run_result(success: bool, stdout: &str, stderr: &str) -> (r: FwResult)
    ensures
        r.ok == success,
        success ==> r.output@ == stdout@ + stderr@ && r.error@ == Seq::<char>::empty(),
        !success ==> r.error@ == stdout@ + stderr@ && r.output@ == Seq::<char>::empty(),
{
    let mut text = string_of(stdout);
    push_str(&mut text, stderr);
    if success {
        FwResult::success(text)
    } else {
        FwResult::failure(text)
    }
}

/// The flash tools tried, in order of preference.
pub open spec fn tool_names() -> Seq<Seq<char>> {
    seq!["espflash"@, "esptool"@, "esptool.py"@]
}

/// The first tool, in order of preference, that answered its `--help`.
pub open spec fn spec_find_tool(answers: Seq<bool>) -> Option<Seq<char>> {
    if answers[0] {
        Some(tool_names()[0])
    } else if answers[1] {
        Some(tool_names()[1])
    } else if answers[2] {
        Some(tool_names()[2])
    } else {
        None
    }
}

/// Picks the flash tool: `answers[k]` tells whether the `k`-th of
/// `espflash`, `esptool`, `esptool.py` ran its `--help` successfully.
pub fn find_tool(answers: &[bool]) -> (r: Option<String>)
    requires
        answers@.len() == 3,
    ensures
        match r {
            Some(t) => spec_find_tool(answers@) == Some(t@),
            None => spec_find_tool(answers@) is None,
        },
{
    if answers[0] {
        Some(string_of("espflash"))
    } else if answers[1] {
        Some(string_of("esptool"))
    } else if answers[2] {
        Some(string_of("esptool.py"))
    } else {
        None
    }
}

/// Whether `tool` is esptool, whose `--port` comes before the subcommand and
/// which has no `board-info` (that is espflash's syntax).
pub open spec fn spec_is_esptool(tool: Seq<char>) -> bool {
    tool == "esptool"@ || tool == "esptool.py"@
}

/// Whether `tool` names esptool (either spelling).
pub fn is_esptool(tool: &str) -> (r: bool)
    ensures
        r == spec_is_esptool(tool@),
{
    crate::text::str_eq(tool, "esptool") || crate::text::str_eq(tool, "esptool.py")
}

/// The characters of a sequence of strings.
pub open spec fn views(v: Seq<String>) -> Seq<Seq<char>> {
    v.map_values(|s: String| s@)
}

fn push_arg(args: &mut Vec<String>, a: &str)
    ensures
        views(final(args)@) == views(old(args)@).push(a@),
{
    args.push(string_of(a));
    proof {
        assert(views(final(args)@) =~= views(old(args)@).push(a@));
    }
}

/// The command line that asks the chip for its identity.
pub open spec fn board_info_args(tool: Seq<char>, port: Seq<char>) -> Seq<Seq<char>> {
    if spec_is_esptool(tool) {
        seq!["--port"@, port, "chip-id"@]
    } else {
        seq!["board-info"@, "--port"@, port]
    }
}

/// Plans a board-info run: the tool's arguments, or the failure when no tool
/// is installed.
pub fn board_info(tool: Option<&str>, port: &str) -> (r: Result<Vec<String>, FwResult>)
    ensures
        match tool {
            Some(t) => r matches Ok(a) && views(a@) == board_info_args(t@, port@),
            None => r matches Err(e) && !e.ok && e.error@ == no_tool_text() && e.output@
                == Seq::<char>::empty(),
        },
{
    match tool {
        None => Err(no_tool()),
        Some(t) => {
            let mut args: Vec<String> = Vec::new();
            if is_esptool(t) {
                push_arg(&mut args, "--port");
                push_arg(&mut args, port);
                push_arg(&mut args, "chip-id");
            } else {
                push_arg(&mut args, "board-info");
                push_arg(&mut args, "--port");
                push_arg(&mut args, port);
            }
            proof {
                assert(views(args@) =~= board_info_args(t@, port@));
            }
            Ok(args)
        },
    }
}

/// The command line that writes `bin` to flash address 0.
pub open spec fn flash_args(tool: Seq<char>, port: Seq<char>, bin: Seq<char>) -> Seq<Seq<char>> {
    if spec_is_esptool(tool) {
        seq!["-b"@, "921600"@, "--port"@, port, "write-flash"@, "0x0"@, bin]
    } else {
        seq!["write-flash"@, "--port"@, port, "0x0"@, bin]
    }
}

/// Plans flashing the image at `bin`: the tool's arguments (the run reports
/// progress), or the failure when no tool is installed.
pub fn flash(tool: Option<&str>, port: &str, bin: &str) -> (r: Result<Vec<String>, FwResult>)
    ensures
        match tool {
            Some(t) => r matches Ok(a) && views(a@) == flash_args(t@, port@, bin@),
            None => r matches Err(e) && !e.ok && e.error@ == no_tool_text() && e.output@
                == Seq::<char>::empty(),
        },
{
    match tool {
        None => Err(no_tool()),
        Some(t) => {
            let mut args: Vec<String> = Vec::new();
            if is_esptool(t) {
                push_arg(&mut args, "-b");
                push_arg(&mut args, "921600");
                push_arg(&mut args, "--port");
                push_arg(&mut args, port);
                push_arg(&mut args, "write-flash");
                push_arg(&mut args, "0x0");
                push_arg(&mut args, bin);
            } else {
                push_arg(&mut args, "write-flash");
                push_arg(&mut args, "--port");
                push_arg(&mut args, port);
                push_arg(&mut args, "0x0");
                push_arg(&mut args, bin);
            }
            proof {
                assert(views(args@) =~= flash_args(t@, port@, bin@));
            }
            Ok(args)
        },
    }
}

/// Plans restoring a backup image: the same run as flashing it.
pub fn restore(tool: Option<&str>, port: &str, bin: &str) -> (r: Result<Vec<String>, FwResult>)
    ensures
        match tool {
            Some(t) => r matches Ok(a) && views(a@) == flash_args(t@, port@, bin@),
            None => r matches Err(e) && !e.ok && e.error@ == no_tool_text() && e.output@
                == Seq::<char>::empty(),
        },
{
    flash(tool, port, bin)
}

/// The command line that asks esptool for the flash chip's identity.
pub open spec fn flash_id_args(port: Seq<char>) -> Seq<Seq<char>> {
    seq!["--port"@, port, "flash-id"@]
}

/// Arguments of the flash-id run that detects the flash size (esptool only).
pub fn flash_id_args_for(port: &str) -> (r: Vec<String>)
    ensures
        views(r@) == flash_id_args(port@),
{
    let mut args: Vec<String> = Vec::new();
    push_arg(&mut args, "--port");
    push_arg(&mut args, port);
    push_arg(&mut args, "flash-id");
    proof {
        assert(views(args@) =~= flash_id_args(port@));
    }
    args
}

/// Bytes in `mb` megabytes of flash: 4 MB is 0x400000.
pub fn backup_size(mb: usize) -> (r: usize)
    requires
        mb * 0x100000 <= usize::MAX,
    ensures
        r == mb * 0x100000,
{
    0x100000usize * mb
}

/// The command line that reads `size` bytes of flash into `out`; esptool
/// reports progress, espflash saves the image in one go.
pub open spec fn backup_args(tool: Seq<char>, port: Seq<char>, size: nat, out: Seq<char>) -> Seq<
    Seq<char>,
> {
    if spec_is_esptool(tool) {
        seq!["-b"@, "921600"@, "--port"@, port, "read-flash"@, "0x0"@, dec(size), out]
    } else {
        seq!["read-flash"@, "--port"@, port, "--save-image"@, "0x0"@, dec(size), out]
    }
}

/// Megabytes to back up: the size esptool detected, else the given fallback.
pub open spec fn backup_mb(detected: Option<usize>, fallback_mb: u32) -> nat {
    match detected {
        Some(mb) => mb as nat,
        None => fallback_mb as nat,
    }
}

/// Plans a backup of the whole flash into `out`. `detected` is the size that
/// the flash-id run reported (esptool only; `None` when it was not run or
/// gave none), `flash_size_mb` the fallback. Returns the arguments and
/// whether the run reports progress, or the failure when no tool is
/// installed.
pub fn backup(
    tool: Option<&str>,
    port: &str,
    out: &str,
    flash_size_mb: u32,
    detected: Option<usize>,
) -> (r: Result<(Vec<String>, bool), FwResult>)
    requires
        backup_mb(detected, flash_size_mb) * 0x100000 <= u64::MAX,
        backup_mb(detected, flash_size_mb) * 0x100000 <= usize::MAX,
    ensures
        match tool {
            Some(t) => r matches Ok((a, progress)) && progress == spec_is_esptool(t@) && views(a@)
                == backup_args(t@, port@, backup_mb(detected, flash_size_mb) * 0x100000, out@),
            None => r matches Err(e) && !e.ok && e.error@ == no_tool_text() && e.output@
                == Seq::<char>::empty(),
        },
{
    match tool {
        None => Err(no_tool()),
        Some(t) => {
            let mb: usize = match detected {
                Some(m) => m,
                None => flash_size_mb as usize,
            };
            let size = backup_size(mb);
            let mut size_str = String::new();
            push_dec(&mut size_str, size as u64);
            let esptool = is_esptool(t);
            let mut args: Vec<String> = Vec::new();
            if esptool {
                push_arg(&mut args, "-b");
                push_arg(&mut args, "921600");
                push_arg(&mut args, "--port");
                push_arg(&mut args, port);
                push_arg(&mut args, "read-flash");
                push_arg(&mut args, "0x0");
            } else {
                push_arg(&mut args, "read-flash");
                push_arg(&mut args, "--port");
                push_arg(&mut args, port);
                push_arg(&mut args, "--save-image");
                push_arg(&mut args, "0x0");
            }
            let ghost before = args@;
            args.push(size_str);
            push_arg(&mut args, out);
            proof {
                assert(size_str@ == dec(size as nat));
                assert(views(before.push(size_str)) =~= views(before).push(size_str@));
                assert(views(args@) =~= backup_args(t@, port@, (mb * 0x100000) as nat, out@));
            }
            Ok((args, esptool))
        },
    }
}

/// The text that introduces the flash size in esptool's flash-id output.
pub open spec fn size_prefix() -> Seq<char> {
    "Detected flash size:"@
}

/// `s` without any number of trailing "MB".
pub open spec fn strip_mb(s: Seq<char>) -> Seq<char>
    decreases s.len(),
{
    if s.len() >= 2 && s[s.len() - 2] == 'M' && s[s.len() - 1] == 'B' {
        strip_mb(s.take(s.len() - 2))
    } else {
        s
    }
}

/// The flash size one output line announces: the line, trimmed, starts with
/// "Detected flash size:", and what follows, trimmed, without its "MB"
/// suffixes and trimmed again, is a `usize`.
pub open spec fn line_flash_size(line: Seq<char>) -> Option<nat> {
    let l = trim(line);
    let p = size_prefix();
    if l.len() >= p.len() && l.take(p.len() as int) == p {
        spec_parse_usize(trim(strip_mb(trim(l.skip(p.len() as int)))))
    } else {
        None
    }
}

/// End of the line that starts at `i`: the next newline, or the end.
pub open spec fn line_end(s: Seq<char>, i: int) -> int
    decreases s.len() - i,
{
    if i >= s.len() {
        s.len() as int
    } else if s[i] == '\n' {
        i
    } else {
        line_end(s, i + 1)
    }
}

/// A line ends at or after its start, at a newline or at the end of `s`.
pub proof fn lemma_line_end(s: Seq<char>, i: int)
    requires
        0 <= i <= s.len(),
    ensures
        i <= line_end(s, i) <= s.len(),
        line_end(s, i) < s.len() ==> s[line_end(s, i)] == '\n',
        forall|j: int| i <= j < line_end(s, i) ==> s[j] != '\n',
    decreases s.len() - i,
{
    if i < s.len() && s[i] != '\n' {
        lemma_line_end(s, i + 1);
    }
}

/// The first flash size announced by a line of `s`, from the line that
/// starts at `i` on. Lines end at newlines; since each is trimmed, a
/// carriage return before the newline makes no difference.
pub open spec fn flash_size_from(s: Seq<char>, i: int) -> Option<nat>
    decreases s.len() + 1 - i,
{
    if i < 0 || i >= s.len() {
        None
    } else {
        let e = line_end(s, i);
        proof {
            lemma_line_end(s, i);
        }
        match line_flash_size(s.subrange(i, e)) {
            Some(n) => Some(n),
            None => flash_size_from(s, e + 1),
        }
    }
}

fn strip_mb_window(s: &[char], lo: usize, hi: usize) -> (b: usize)
    requires
        lo <= hi <= s@.len(),
    ensures
        lo <= b <= hi,
        strip_mb(s@.subrange(lo as int, hi as int)) == s@.subrange(lo as int, b as int),
{
    let mut b = hi;
    while b - lo >= 2 && s[b - 2] == 'M' && s[b - 1] == 'B'
        invariant
            lo <= b <= hi <= s@.len(),
            strip_mb(s@.subrange(lo as int, hi as int)) == strip_mb(s@.subrange(lo as int, b as int)),
        decreases b - lo,
    {
        proof {
            let w = s@.subrange(lo as int, b as int);
            assert(w[w.len() - 2] == s@[b - 2]);
            assert(w.take(w.len() - 2) =~= s@.subrange(lo as int, b - 2));
        }
        b = b - 2;
    }
    b
}

fn line_flash_size_in(s: &[char], lo: usize, hi: usize) -> (r: Option<usize>)
    requires
        lo <= hi <= s@.len(),
    ensures
        match r {
            Some(v) => line_flash_size(s@.subrange(lo as int, hi as int)) == Some(v as nat),
            None => line_flash_size(s@.subrange(lo as int, hi as int)) is None,
        },
{
    let prefix = "Detected flash size:";
    let plen = prefix.unicode_len();
    let (a, b) = trim_window(s, lo, hi);
    let ghost l = s@.subrange(a as int, b as int);
    assert(prefix@ == size_prefix());
    if b - a < plen {
        return None;
    }
    let mut j: usize = 0;
    while j < plen
        invariant
            j <= plen,
            plen == prefix@.len(),
            a + plen <= b <= s@.len(),
            l == s@.subrange(a as int, b as int),
            lo <= hi <= s@.len(),
            trim(s@.subrange(lo as int, hi as int)) == l,
            prefix@ == size_prefix(),
            forall|k: int| 0 <= k < j ==> l[k] == prefix@[k],
        decreases plen - j,
    {
        if s[a + j] != prefix.get_char(j) {
            proof {
                assert(l.take(plen as int)[j as int] != prefix@[j as int]);
            }
            return None;
        }
        j = j + 1;
    }
    proof {
        assert(l.take(plen as int) =~= prefix@);
        assert(l.skip(plen as int) =~= s@.subrange(a + plen, b as int));
    }
    let (a2, b2) = trim_window(s, a + plen, b);
    let b3 = strip_mb_window(s, a2, b2);
    let (a4, b4) = trim_window(s, a2, b3);
    parse_usize_in(s, a4, b4)
}

/// Reads the flash size in megabytes from esptool's flash-id output
/// ("Detected flash size: 8MB"): the size given by the first line that
/// announces one.
pub fn parse_flash_size_mb(output: &str) -> (r: Option<usize>)
    ensures
        match r {
            Some(v) => flash_size_from(output@, 0) == Some(v as nat),
            None => flash_size_from(output@, 0) is None,
        },
{
    let cs = chars_of(output);
    let n = cs.len();
    let mut i: usize = 0;
    while i < n
        invariant
            i <= n,
            n == cs@.len(),
            cs@ == output@,
            flash_size_from(cs@, 0) == flash_size_from(cs@, i as int),
        decreases n - i,
    {
        let mut e = i;
        while e < n && cs[e] != '\n'
            invariant
                i <= e <= n,
                n == cs@.len(),
                line_end(cs@, i as int) == line_end(cs@, e as int),
            decreases n - e,
        {
            e = e + 1;
        }
        proof {
            lemma_line_end(cs@, i as int);
        }
        match line_flash_size_in(cs.as_slice(), i, e) {
            Some(v) => {
                return Some(v);
            },
            None => {},
        }
        if e >= n {
            return None;
        }
        i = e + 1;
    }
    None
}

/// Index of the first `c` in `s` from `i` on; the length when none.
pub open spec fn index_of_from(s: Seq<char>, c: char, i: int) -> int
    decreases s.len() - i,
{
    if i < 0 || i >= s.len() {
        s.len() as int
    } else if s[i] == c {
        i
    } else {
        index_of_from(s, c, i + 1)
    }
}

/// Start of the run of spaces that ends at `e`.
pub open spec fn spaces_start(s: Seq<char>, e: int) -> int
    decreases e,
{
    if e > 0 && e <= s.len() && s[e - 1] == ' ' {
        spaces_start(s, e - 1)
    } else {
        e
    }
}

/// A character of a progress number: a digit or a dot.
pub open spec fn number_char(c: char) -> bool {
    is_digit(c) || c == '.'
}

/// Start of the run of digits and dots that ends at `e`.
pub open spec fn number_start(s: Seq<char>, e: int) -> int
    decreases e,
{
    if e > 0 && e <= s.len() && number_char(s[e - 1]) {
        number_start(s, e - 1)
    } else {
        e
    }
}

/// The number in front of the first percent sign of a progress line: the
/// run of digits and dots that ends where the spaces before the sign
/// begin; `None` without a percent sign or without such a run.
pub open spec fn spec_pct_number(line: Seq<char>) -> Option<Seq<char>> {
    let p = index_of_from(line, '%', 0);
    if p >= line.len() {
        None
    } else {
        let e = spaces_start(line, p);
        let st = number_start(line, e);
        if st >= e {
            None
        } else {
            Some(line.subrange(st, e))
        }
    }
}

proof fn lemma_runs_bounded(s: Seq<char>, e: int)
    requires
        0 <= e <= s.len(),
    ensures
        0 <= spaces_start(s, e) <= e,
        0 <= number_start(s, e) <= e,
    decreases e,
{
    if e > 0 {
        lemma_runs_bounded(s, e - 1);
    }
}

proof fn lemma_index_of_bounded(s: Seq<char>, c: char, i: int)
    requires
        0 <= i <= s.len(),
    ensures
        i <= index_of_from(s, c, i) <= s.len(),
    decreases s.len() - i,
{
    if i < s.len() && s[i] != c {
        lemma_index_of_bounded(s, c, i + 1);
    }
}

/// Finds the progress number of a line like "Writing at 0x3000... (45.0 %)"
/// (see `spec_pct_number`).
pub fn pct_number(line: &str) -> (r: Option<String>)
    ensures
        match r {
            Some(num) => spec_pct_number(line@) == Some(num@),
            None => spec_pct_number(line@) is None,
        },
{
    let cs = chars_of(line);
    let n = cs.len();
    let mut p: usize = 0;
    while p < n && cs[p] != '%'
        invariant
            p <= n,
            n == cs@.len(),
            index_of_from(cs@, '%', 0) == index_of_from(cs@, '%', p as int),
        decreases n - p,
    {
        p = p + 1;
    }
    if p == n {
        return None;
    }
    let mut end = p;
    while end > 0 && cs[end - 1] == ' '
        invariant
            end <= p < n,
            n == cs@.len(),
            spaces_start(cs@, p as int) == spaces_start(cs@, end as int),
        decreases end,
    {
        end = end - 1;
    }
    let mut start = end;
    while start > 0 && ((cs[start - 1] >= '0' && cs[start - 1] <= '9') || cs[start - 1] == '.')
        invariant
            start <= end <= p < n,
            n == cs@.len(),
            number_start(cs@, end as int) == number_start(cs@, start as int),
        decreases start,
    {
        start = start - 1;
    }
    if start == end {
        return None;
    }
    let num = crate::text::string_from(cs.as_slice(), start, end);
    Some(num)
}

/// Value of a progress number read as an exact decimal and rounded half
/// up, capped at 100: `None` unless it is digits with at most one dot and
/// at least one digit.
pub open spec fn pct_value(num: Seq<char>) -> Option<nat> {
    let k = index_of_from(num, '.', 0);
    let int_part = num.take(k);
    let frac = if k < num.len() {
        num.skip(k + 1)
    } else {
        Seq::<char>::empty()
    };
    if !crate::text::all_digits(int_part) || !crate::text::all_digits(frac) || int_part.len() + frac.len()
        == 0 {
        None
    } else {
        let v = crate::text::digits_value(int_part) + if frac.len() > 0 && frac[0] >= '5' {
            1nat
        } else {
            0nat
        };
        Some(if v > 100 {
            100nat
        } else {
            v
        })
    }
}

/// The whole percentage of an esptool progress line ("99.5%" gives 100,
/// "(45.0 %)" gives 45), at most 100; `None` when the line shows none.
/// The number is read as an exact decimal and rounded half up.
pub open spec fn spec_parse_pct(line: Seq<char>) -> Option<nat> {
    match spec_pct_number(line) {
        Some(num) => pct_value(num),
        None => None,
    }
}

/// Reads the percentage of an esptool progress line (see
/// `spec_parse_pct`).
pub fn parse_pct(line: &str) -> (r: Option<u32>)
    ensures
        match r {
            Some(v) => spec_parse_pct(line@) == Some(v as nat),
            None => spec_parse_pct(line@) is None,
        },
{
    let num = match pct_number(line) {
        Some(n) => n,
        None => {
            return None;
        },
    };
    let cs = chars_of(num.as_str());
    let n = cs.len();
    let mut k: usize = 0;
    while k < n && cs[k] != '.'
        invariant
            k <= n,
            n == cs@.len(),
            index_of_from(cs@, '.', 0) == index_of_from(cs@, '.', k as int),
        decreases n - k,
    {
        k = k + 1;
    }
    proof {
        lemma_index_of_bounded(cs@, '.', 0);
        assert(num@ == cs@);
    }
    let ghost int_part = cs@.take(k as int);
    let ghost frac = if k < n {
        cs@.skip(k + 1)
    } else {
        Seq::<char>::empty()
    };
    // the integer part, saturating at 1000
    let mut v: u32 = 0;
    let mut i: usize = 0;
    while i < k
        invariant
            i <= k <= n,
            n == cs@.len(),
            k as int == index_of_from(cs@, '.', 0),
            spec_parse_pct(line@) == pct_value(cs@),
            int_part == cs@.take(k as int),
            forall|j: int| 0 <= j < i ==> crate::text::is_digit(#[trigger] cs@[j]),
            v == (if crate::text::digits_value(int_part.take(i as int)) > 1000 {
                1000
            } else {
                crate::text::digits_value(int_part.take(i as int))
            }),
        decreases k - i,
    {
        let c = cs[i];
        if !(c >= '0' && c <= '9') {
            proof {
                assert(int_part[i as int] == c);
            }
            return None;
        }
        proof {
            assert(int_part.take(i + 1).drop_last() =~= int_part.take(i as int));
            assert(int_part.take(i + 1).last() == c);
        }
        let d: u32 = (c as u32) - 48;
        let nv: u32 = v * 10 + d;
        v = if nv > 1000 {
            1000
        } else {
            nv
        };
        i = i + 1;
    }
    proof {
        assert(int_part.take(k as int) =~= int_part);
        assert(crate::text::all_digits(int_part));
    }
    // the fractional part: digits only
    let mut j: usize = if k < n {
        k + 1
    } else {
        n
    };
    let fstart = j;
    while j < n
        invariant
            fstart <= j <= n,
            k <= n,
            n == cs@.len(),
            k as int == index_of_from(cs@, '.', 0),
            spec_parse_pct(line@) == pct_value(cs@),
            fstart == (if k < n { k + 1 } else { n as int }),
            frac == (if k < n { cs@.skip(k + 1) } else { Seq::<char>::empty() }),
            forall|t: int| fstart <= t < j ==> crate::text::is_digit(#[trigger] cs@[t]),
        decreases n - j,
    {
        let c = cs[j];
        if !(c >= '0' && c <= '9') {
            proof {
                assert(frac[j - fstart] == c);
            }
            return None;
        }
        j = j + 1;
    }
    proof {
        assert forall|t: int| 0 <= t < frac.len() implies crate::text::is_digit(#[trigger] frac[t]) by {
            assert(frac[t] == cs@[fstart + t]);
        }
    }
    if k + (n - fstart) == 0 {
        return None;
    }
    let up: u32 = if fstart < n && cs[fstart] >= '5' {
        1
    } else {
        0
    };
    let total = v + up;
    let r: u32 = if total > 100 {
        100
    } else {
        total
    };
    proof {
        assert(num@ == cs@);
        if up == 1 {
            assert(frac[0] == cs@[fstart as int]);
        }
        if frac.len() > 0 {
            assert(frac[0] == cs@[fstart as int]);
        }
    }
    Some(r)
}

/// Output kept from a tool run is capped near this many bytes.
pub const OUTPUT_CAP: usize = 16384;

/// What a tool run has printed so far: the kept output lines, and the last
/// progress percentage reported.
pub struct RunOutput {
    pub out: String,
    pub last_pct: Option<u32>,
}

/// The output after one more line, and the percentage to report (if any):
/// a progress line reports its percentage when it differs from the last
/// one reported; another line is kept, with a line break, while the kept
/// output is under `OUTPUT_CAP` bytes (its UTF-8 length, as `str::len`
/// gives it).
pub open spec fn spec_take_line(out: Seq<char>, last: Option<u32>, line: Seq<char>) -> (
    Seq<char>,
    Option<u32>,
    Option<u32>,
) {
    match spec_parse_pct(line) {
        Some(p) => if last == Some(p as u32) {
            (out, last, None)
        } else {
            (out, Some(p as u32), Some(p as u32))
        },
        None => if (vstd::utf8::encode_utf8(out).len() as usize) < OUTPUT_CAP {
            (out + line + seq!['\n'], last, None)
        } else {
            (out, last, None)
        },
    }
}

impl RunOutput {
    /// Nothing printed yet.
    pub fn new() -> (r: RunOutput)
        ensures
            r.out@ == Seq::<char>::empty(),
            r.last_pct is None,
    {
        RunOutput { out: String::new(), last_pct: None }
    }

    /// Takes one trimmed, non-empty line of the tool's output (see
    /// `spec_take_line`); the percentage to report, if any.
    pub fn take_line(&mut self, line: &str) -> (r: Option<u32>)
        ensures
            (final(self).out@, final(self).last_pct, r) == spec_take_line(old(self).out@, old(self).last_pct, line@),
    {
        match parse_pct(line) {
            Some(p) => {
                let same = match self.last_pct {
                    Some(q) => q == p,
                    None => false,
                };
                proof {
                    assert(spec_parse_pct(line@) == Some(p as nat));
                    assert((p as nat) as u32 == p);
                }
                if same {
                    None
                } else {
                    self.last_pct = Some(p);
                    Some(p)
                }
            },
            None => {
                if self.out.as_str().len() < OUTPUT_CAP {
                    push_str(&mut self.out, line);
                    push_char(&mut self.out, '\n');
                    proof {
                        assert(final(self).out@ =~= old(self).out@ + line@ + seq!['\n']);
                    }
                }
                None
            },
        }
    }
}

/// Whether `c` ends a line of tool output (a line feed, or the carriage
/// return progress bars redraw with).
pub open spec fn is_line_break(c: char) -> bool {
    c == '\n' || c == '\r'
}

/// Position of the first line break from `k` on; the length when none.
pub open spec fn break_from(s: Seq<char>, k: int) -> int
    decreases s.len() - k,
{
    if k < 0 || k >= s.len() {
        s.len() as int
    } else if is_line_break(s[k]) {
        k
    } else {
        break_from(s, k + 1)
    }
}

/// The complete lines of `s` from `k` on, each trimmed, empty ones left
/// out, and the unfinished remainder after the last line break.
pub open spec fn lines_from(s: Seq<char>, k: int) -> (Seq<Seq<char>>, Seq<char>)
    decreases s.len() - k,
{
    if k < 0 || k > s.len() {
        (Seq::empty(), Seq::empty())
    } else {
        let e = break_from(s, k);
        proof {
            lemma_break_from_range(s, k);
        }
        if e >= s.len() {
            (Seq::empty(), s.subrange(k, s.len() as int))
        } else {
            let piece = trim(s.subrange(k, e));
            let rest = lines_from(s, e + 1);
            (if piece.len() > 0 {
                seq![piece] + rest.0
            } else {
                rest.0
            }, rest.1)
        }
    }
}

pub proof fn lemma_break_from_range(s: Seq<char>, k: int)
    requires
        0 <= k <= s.len(),
    ensures
        k <= break_from(s, k) <= s.len(),
        break_from(s, k) < s.len() ==> is_line_break(s[break_from(s, k)]),
    decreases s.len() - k,
{
    if k < s.len() && !is_line_break(s[k]) {
        lemma_break_from_range(s, k + 1);
    }
}

/// Cuts what a tool has printed so far into its complete lines (trimmed,
/// empty ones left out) and the unfinished remainder.
pub fn cut_lines(text: &str) -> (r: (Vec<String>, String))
    ensures
        r.0@.map_values(|l: String| l@) == lines_from(text@, 0).0,
        r.1@ == lines_from(text@, 0).1,
{
    let cs = chars_of(text);
    let n = cs.len();
    let mut lines: Vec<String> = Vec::new();
    let mut start: usize = 0;
    let mut i: usize = 0;
    while i < n
        invariant
            cs@ == text@,
            n == cs@.len(),
            start <= i <= n,
            break_from(cs@, start as int) == break_from(cs@, i as int),
            lines_from(cs@, 0).0 == lines@.map_values(|l: String| l@) + lines_from(cs@, start as int).0,
            lines_from(cs@, 0).1 == lines_from(cs@, start as int).1,
        decreases n - i,
    {
        if cs[i] == '\n' || cs[i] == '\r' {
            let ghost before = lines@;
            proof {
                assert(break_from(cs@, i as int) == i);
            }
            let (a, b) = trim_window(cs.as_slice(), start, i);
            let piece = string_from(cs.as_slice(), a, b);
            proof {
                assert(piece@ == trim(cs@.subrange(start as int, i as int)));
            }
            if piece.unicode_len() > 0 {
                lines.push(piece);
                proof {
                    assert(lines@.map_values(|l: String| l@) =~= before.map_values(|l: String| l@).push(
                        piece@,
                    ));
                    assert(seq![piece@] + lines_from(cs@, i + 1).0 =~= seq![piece@].add(
                        lines_from(cs@, i + 1).0,
                    ));
                    assert(lines@.map_values(|l: String| l@) + lines_from(cs@, i + 1).0
                        =~= before.map_values(|l: String| l@) + (seq![piece@] + lines_from(cs@, i + 1).0));
                }
            }
            start = i + 1;
        }
        i = i + 1;
    }
    proof {
        lemma_break_from_range(cs@, start as int);
        assert(break_from(cs@, n as int) == n);
        assert(lines_from(cs@, start as int).0 =~= Seq::<Seq<char>>::empty());
        assert(lines@.map_values(|l: String| l@) + Seq::<Seq<char>>::empty() =~= lines@.map_values(
            |l: String| l@,
        ));
    }
    let rest = string_from(cs.as_slice(), start, n);
    (lines, rest)
}

} // verus!
