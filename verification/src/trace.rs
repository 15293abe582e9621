//! The bus log: one entry per Modbus transaction (request and reply as hex,
//! outcome, duration), kept in a bounded ring, oldest first.

use crate::crc::{hex_join, to_hex};
use crate::text::{hex2, push_hex2, string_of};
use std::collections::VecDeque;
use vstd::prelude::*;

verus! {

/// How many transactions the bus log keeps.
pub const TRACE_CAP: usize = 100;

/// One Modbus transaction master -> slave -> master.
#[derive(Debug)]
pub struct TraceEntry {
    /// "RTU" (cable and CRC) or "TCP" (MBAP header, no CRC).
    pub transport: &'static str,
    /// Name of the Modbus function.
    pub fc: String,
    /// Request as sent, in hex.
    pub req: String,
    /// Reply as received, in hex; empty on error or timeout.
    pub resp: String,
    /// Whether the transaction succeeded.
    pub ok: bool,
    /// Error text on failure.
    pub err: Option<String>,
    /// Duration in milliseconds.
    pub ms: u64,
}

/// Human-readable name of a Modbus function code.
pub open spec fn spec_fc_name(fc: u8) -> Seq<char> {
    if fc == 0x01 {
        "READ COILS (0x01)"@
    } else if fc == 0x02 {
        "READ DISCRETE INPUTS (0x02)"@
    } else if fc == 0x03 {
        "READ HOLDING REGISTERS (0x03)"@
    } else if fc == 0x04 {
        "READ INPUT REGISTERS (0x04)"@
    } else if fc == 0x05 {
        "WRITE SINGLE COIL (0x05)"@
    } else if fc == 0x06 {
        "WRITE SINGLE REGISTER (0x06)"@
    } else if fc == 0x0F {
        "WRITE MULTIPLE COILS (0x0F)"@
    } else if fc == 0x10 {
        "WRITE MULTIPLE REGISTERS (0x10)"@
    } else {
        "FUNCTION 0x"@ + hex2(fc)
    }
}

/// Human-readable name of a Modbus function code.
pub fn fc_name(fc: u8) -> (r: String)
    ensures
        r@ == spec_fc_name(fc),
{
    match fc {
        0x01 => string_of("READ COILS (0x01)"),
        0x02 => string_of("READ DISCRETE INPUTS (0x02)"),
        0x03 => string_of("READ HOLDING REGISTERS (0x03)"),
        0x04 => string_of("READ INPUT REGISTERS (0x04)"),
        0x05 => string_of("WRITE SINGLE COIL (0x05)"),
        0x06 => string_of("WRITE SINGLE REGISTER (0x06)"),
        0x0F => string_of("WRITE MULTIPLE COILS (0x0F)"),
        0x10 => string_of("WRITE MULTIPLE REGISTERS (0x10)"),
        other => {
            let mut s = string_of("FUNCTION 0x");
            push_hex2(&mut s, other);
            s
        },
    }
}

/// A log entry for a transaction of function `fc`: its name, the request
/// and (if any) the reply in hex, the outcome and the duration.
pub fn trace_entry(
    transport: &'static str,
    fc: u8,
    req: &[u8],
    resp: Option<&[u8]>,
    ok: bool,
    err: Option<String>,
    ms: u64,
) -> (r: TraceEntry)
    ensures
        r.transport == transport,
        r.fc@ == spec_fc_name(fc),
        r.req@ == hex_join(req@),
        r.resp@ == (match resp {
            Some(b) => hex_join(b@),
            None => Seq::<char>::empty(),
        }),
        r.ok == ok,
        r.err == err,
        r.ms == ms,
{
    let resp_hex = match resp {
        Some(b) => to_hex(b),
        None => String::new(),
    };
    TraceEntry { transport, fc: fc_name(fc), req: to_hex(req), resp: resp_hex, ok, err, ms }
}

/// Appends an entry to the bus log, dropping the oldest entry when the log
/// already holds `TRACE_CAP` entries.
pub fn push_trace(trace: &mut VecDeque<TraceEntry>, entry: TraceEntry)
    ensures
        final(trace)@ == (if old(trace)@.len() >= TRACE_CAP {
            old(trace)@.drop_first()
        } else {
            old(trace)@
        }).push(entry),
{
    if trace.len() >= TRACE_CAP {
        trace.pop_front();
    }
    trace.push_back(entry);
}

/// Takes every entry out of the bus log, oldest first.
pub fn drain_trace(trace: &mut VecDeque<TraceEntry>) -> (r: Vec<TraceEntry>)
    ensures
        r@ == old(trace)@,
        final(trace)@.len() == 0,
{
    let mut out: Vec<TraceEntry> = Vec::new();
    while trace.len() > 0
        invariant
            out@ + trace@ == old(trace)@,
        decreases trace@.len(),
    {
        let ghost before = trace@;
        match trace.pop_front() {
            Some(e) => {
                out.push(e);
                proof {
                    assert(out@ + trace@ =~= old(trace)@);
                }
            },
            None => {},
        }
    }
    proof {
        assert(out@ =~= out@ + trace@);
    }
    out
}

/// The bus log never holds more than `TRACE_CAP` entries: pushing onto a log
/// within the bound keeps it within the bound.
pub proof fn lemma_push_trace_bounded(log: Seq<TraceEntry>, entry: TraceEntry)
    requires
        log.len() <= TRACE_CAP,
    ensures
        (if log.len() >= TRACE_CAP {
            log.drop_first()
        } else {
            log
        }).push(entry).len() <= TRACE_CAP,
{
}

} // verus!
