//! The master side of a Modbus transaction once the reply bytes are in:
//! how a received RTU frame is judged, how write echoes are checked, and the
//! bus-log entry that records the transaction.

use crate::crc::{crc_ok, hex_join, verify};
use crate::frames::{error_text, parse_response, response_payload, spec_exception_error, ModbusError};
use crate::text::{hex2, string_of};
use crate::trace::{spec_fc_name, trace_entry, TraceEntry};
use vstd::prelude::*;

verus! {

/// Judges the bytes that arrived after an RTU request of function `fc` to
/// slave `slave_id`: nothing is a timeout, a frame whose CRC does not check
/// is `BadCrc`, and a frame that checks is taken apart as
/// `frames::parse_response` does.
pub fn rtu_reply(slave_id: u8, fc: u8, received: &[u8]) -> (r: Result<Vec<u8>, ModbusError>)
    ensures
        received@.len() == 0 ==> r matches Err(ModbusError::Timeout),
        received@.len() > 0 && !crc_ok(received@, 4) ==> r matches Err(ModbusError::BadCrc),
        crc_ok(received@, 4) && received@.len() < 5 ==> r matches Err(ModbusError::Timeout),
        crc_ok(received@, 4) && received@.len() >= 5 && received@[0] != slave_id ==> (r matches Err(
            ModbusError::Io(m),
        ) && m@ == "unexpected slave 0x"@ + hex2(received@[0])),
        crc_ok(received@, 4) && received@.len() >= 5 && received@[0] == slave_id && received@[1] == (fc
            | 0x80u8) ==> r == Err::<Vec<u8>, ModbusError>(spec_exception_error(received@[2])),
        crc_ok(received@, 4) && received@.len() >= 5 && received@[0] == slave_id && received@[1] != (fc
            | 0x80u8) && received@[1] != fc ==> (r matches Err(ModbusError::Io(m)) && m@
            == "unexpected FC 0x"@ + hex2(received@[1]) + " (wanted 0x"@ + hex2(fc) + ")"@),
        r is Ok <==> response_payload(received@, slave_id, fc) is Some,
        r matches Ok(v) ==> response_payload(received@, slave_id, fc) == Some(v@),
{
    if received.len() == 0 {
        return Err(ModbusError::Timeout);
    }
    if !verify(received) {
        return Err(ModbusError::BadCrc);
    }
    parse_response(received, slave_id, fc)
}

/// The hex of the reply bytes, or nothing when none arrived.
pub open spec fn hex_join_opt(resp: Option<&[u8]>) -> Seq<char> {
    match resp {
        Some(b) => hex_join(b@),
        None => Seq::empty(),
    }
}

/// The text of the error of a failed outcome.
pub open spec fn outcome_error(outcome: Result<Vec<u8>, ModbusError>) -> Option<Seq<char>> {
    match outcome {
        Ok(_) => None,
        Err(e) => Some(error_text(e)),
    }
}

/// The bus-log entry of a transaction of function `fc` over `transport`:
/// the request, the reply bytes if any arrived, whether it succeeded and
/// the error's text when it failed.
pub fn transaction_entry(
    transport: &'static str,
    fc: u8,
    req: &[u8],
    resp: Option<&[u8]>,
    outcome: &Result<Vec<u8>, ModbusError>,
    ms: u64,
) -> (r: TraceEntry)
    ensures
        r.transport == transport,
        r.fc@ == spec_fc_name(fc),
        r.req@ == hex_join(req@),
        r.resp@ == hex_join_opt(resp),
        r.ok == outcome is Ok,
        (match r.err {
            Some(m) => Some(m@),
            None => None,
        }) == outcome_error(*outcome),
        r.ms == ms,
{
    let err = match outcome {
        Ok(_) => None,
        Err(e) => Some(e.message()),
    };
    trace_entry(transport, fc, req, resp, outcome.is_ok(), err, ms)
}

/// The bus-log entry of an RTU transaction: the reply is shown when any
/// byte arrived.
pub fn rtu_entry(fc: u8, req: &[u8], received: &[u8], outcome: &Result<Vec<u8>, ModbusError>, ms: u64) -> (r:
    TraceEntry)
    ensures
        r.transport@ == "RTU"@,
        r.fc@ == spec_fc_name(fc),
        r.req@ == hex_join(req@),
        r.resp@ == (if received@.len() == 0 {
            Seq::<char>::empty()
        } else {
            hex_join(received@)
        }),
        r.ok == outcome is Ok,
        (match r.err {
            Some(m) => Some(m@),
            None => None,
        }) == outcome_error(*outcome),
        r.ms == ms,
{
    let resp = if received.len() == 0 {
        None
    } else {
        Some(received)
    };
    let r = transaction_entry("RTU", fc, req, resp, outcome, ms);
    proof {
        reveal_strlit("RTU");
    }
    r
}

/// The register value that a single-coil write sends: 0xFF00 for on, 0 for
/// off.
pub fn coil_word(on: bool) -> (r: u16)
    ensures
        r == (if on {
            0xFF00u16
        } else {
            0u16
        }),
{
    if on {
        0xFF00
    } else {
        0
    }
}

/// Checks the echo of a single write: at least the four bytes of address
/// and value, else `Io("short write echo")` (or `"short coil echo"` for a
/// coil).
pub fn check_write_echo(resp: &[u8], coil: bool) -> (r: Result<(), ModbusError>)
    ensures
        resp@.len() >= 4 <==> r is Ok,
        resp@.len() < 4 ==> (r matches Err(ModbusError::Io(m)) && m@ == (if coil {
            "short coil echo"@
        } else {
            "short write echo"@
        })),
{
    if resp.len() < 4 {
        if coil {
            return Err(ModbusError::Io(string_of("short coil echo")));
        }
        return Err(ModbusError::Io(string_of("short write echo")));
    }
    Ok(())
}

} // verus!
