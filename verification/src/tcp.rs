//! Modbus TCP: the PDU dispatcher that serves the emulator as a slave, and
//! the MBAP framing (`[tid][proto = 0][len][unit]` + PDU, no CRC) used by
//! both the server and the master.

use crate::bits::{pack_bits, packed_len, push_packed_bits};
use crate::emulator::{find_slave, map_after_values, read_or_default, values_fit, DeviceView, Emulator};
use crate::frames::{exception_to_error, spec_exception_error, ModbusError};
use crate::crc::hex_join;
use crate::trace::{spec_fc_name, trace_entry, TraceEntry};
use crate::text::{dec, hex2, push_dec, push_hex2, push_str, string_of};
use crate::wire::{be_bytes, field, push_be16, push_regs_be, read_be16, regs_be};
use vstd::prelude::*;

verus! {

/// Start and count of a read request `[start, count]` bounded by `max`:
/// exception 0x03 for a PDU of the wrong size or a count of 0 or above
/// `max`, 0x02 for a range past address 0xFFFF.
pub open spec fn spec_read_count(data: Seq<u8>, max: u16) -> Result<(u16, u16), u8> {
    if data.len() != 4 {
        Err(0x03)
    } else {
        let start = field(data, 0);
        let count = field(data, 2);
        if count == 0 || count > max {
            Err(0x03)
        } else if start as int + count as int > 0x10000 {
            Err(0x02)
        } else {
            Ok((start, count))
        }
    }
}

fn read_count(data: &[u8], max: u16) -> (r: Result<(u16, u16), u8>)
    ensures
        r == spec_read_count(data@, max),
{
    if data.len() != 4 {
        return Err(0x03);
    }
    let start = read_be16(data, 0);
    let count = read_be16(data, 2);
    if count == 0 || count > max {
        return Err(0x03);
    }
    if start as u32 + count as u32 > 0x1_0000 {
        return Err(0x02);
    }
    Ok((start, count))
}

/// The coil values of a write-multiple-coils PDU body, bit `i % 8` of data
/// byte `i / 8` (after the 5 header bytes).
pub open spec fn tcp_coil_values(data: Seq<u8>, qty: u16) -> Seq<bool> {
    Seq::new(qty as nat, |i: int| (data[5 + i / 8] >> ((i % 8) as u8)) & 1u8 == 1u8)
}

/// The register values of a write-multiple-registers PDU body.
pub open spec fn tcp_reg_values(data: Seq<u8>, qty: u16) -> Seq<u16> {
    Seq::new(qty as nat, |i: int| field(data, 5 + 2 * i))
}

/// A write-multiple-coils body that passes the checks.
pub open spec fn multi_coils_ok(data: Seq<u8>) -> bool {
    data.len() >= 6 && {
        let qty = field(data, 2);
        &&& 1 <= qty <= 1968
        &&& data[4] as int == packed_len(qty as nat)
        &&& data.len() == 5 + data[4] as int
    }
}

/// A write-multiple-registers body that passes the checks.
pub open spec fn multi_regs_ok(data: Seq<u8>) -> bool {
    data.len() >= 6 && {
        let qty = field(data, 2);
        &&& 1 <= qty <= 123
        &&& data[4] as int == 2 * qty
        &&& data.len() == 5 + data[4] as int
    }
}

/// The reply body (after the function code) or exception code for a request
/// PDU `fc` + `data` addressed to `unit`. Reads take the Modbus limits: at
/// most 2000 coils or discrete inputs, at most 125 registers (so a register
/// reply's byte count `2 * count` fits its byte).
pub open spec fn spec_pdu_reply(devs: Seq<DeviceView>, unit: u8, fc: u8, data: Seq<u8>) -> Result<
    Seq<u8>,
    u8,
> {
    let i = find_slave(devs, unit);
    if fc == 0x01 || fc == 0x02 {
        match spec_read_count(data, 2000) {
            Err(e) => Err(e),
            Ok((start, count)) => if i < 0 {
                Err(0x02)
            } else {
                let m = if fc == 0x01 {
                    devs[i].coils
                } else {
                    devs[i].discrete
                };
                Ok(
                    seq![packed_len(count as nat) as u8] + pack_bits(
                        read_or_default(m, start, count, false),
                    ),
                )
            },
        }
    } else if fc == 0x03 || fc == 0x04 {
        match spec_read_count(data, 125) {
            Err(e) => Err(e),
            Ok((start, count)) => if i < 0 {
                Err(0x02)
            } else {
                let m = if fc == 0x03 {
                    devs[i].holding
                } else {
                    devs[i].input
                };
                Ok(seq![(2 * count) as u8] + regs_be(read_or_default(m, start, count, 0u16)))
            },
        }
    } else if fc == 0x05 {
        if data.len() != 4 || (field(data, 2) != 0 && field(data, 2) != 0xFF00) {
            Err(0x03)
        } else if i < 0 {
            Err(0x02)
        } else {
            Ok(data.take(4))
        }
    } else if fc == 0x06 {
        if data.len() != 4 {
            Err(0x03)
        } else if i < 0 {
            Err(0x02)
        } else {
            Ok(data.take(4))
        }
    } else if fc == 0x0F {
        if !multi_coils_ok(data) {
            Err(0x03)
        } else if i < 0 {
            Err(0x02)
        } else {
            Ok(be_bytes(field(data, 0)) + be_bytes(field(data, 2)))
        }
    } else if fc == 0x10 {
        if !multi_regs_ok(data) {
            Err(0x03)
        } else if i < 0 {
            Err(0x02)
        } else {
            Ok(be_bytes(field(data, 0)) + be_bytes(field(data, 2)))
        }
    } else {
        Err(0x01)
    }
}

/// The devices after serving a request PDU `fc` + `data` for `unit`.
pub open spec fn spec_pdu_after(devs: Seq<DeviceView>, unit: u8, fc: u8, data: Seq<u8>) -> Seq<
    DeviceView,
> {
    let i = find_slave(devs, unit);
    if i < 0 || spec_pdu_reply(devs, unit, fc, data) is Err {
        devs
    } else if fc == 0x05 {
        devs.update(i, DeviceView { coils: devs[i].coils.insert(field(data, 0), field(data, 2) == 0xFF00), ..devs[i] })
    } else if fc == 0x06 {
        devs.update(i, DeviceView { holding: devs[i].holding.insert(field(data, 0), field(data, 2)), ..devs[i] })
    } else if fc == 0x0F {
        let qty = field(data, 2);
        devs.update(
            i,
            DeviceView {
                coils: map_after_values(devs[i].coils, field(data, 0), tcp_coil_values(data, qty), qty as int),
                ..devs[i]
            },
        )
    } else if fc == 0x10 {
        let qty = field(data, 2);
        devs.update(
            i,
            DeviceView {
                holding: map_after_values(devs[i].holding, field(data, 0), tcp_reg_values(data, qty), qty as int),
                ..devs[i]
            },
        )
    } else {
        devs
    }
}

/// The requests the dispatcher serves without its address arithmetic
/// leaving the 16-bit range: multiple writes to an existing unit that stay
/// inside the address space.
pub open spec fn pdu_in_bounds(devs: Seq<DeviceView>, unit: u8, fc: u8, data: Seq<u8>) -> bool {
    &&& fc == 0x0F && multi_coils_ok(data) && find_slave(devs, unit) >= 0 ==> field(data, 0) as int
        + field(data, 2) as int <= 0x10000
    &&& fc == 0x10 && multi_regs_ok(data) && find_slave(devs, unit) >= 0 ==> field(data, 0) as int
        + field(data, 2) as int <= 0x10000
}

fn copy_first4(data: &[u8]) -> (r: Vec<u8>)
    requires
        data@.len() >= 4,
    ensures
        r@ == data@.take(4),
{
    let mut out: Vec<u8> = Vec::new();
    out.push(data[0]);
    out.push(data[1]);
    out.push(data[2]);
    out.push(data[3]);
    proof {
        assert(out@ =~= data@.take(4));
    }
    out
}

fn start_qty(start: u16, qty: u16) -> (r: Vec<u8>)
    ensures
        r@ == be_bytes(start) + be_bytes(qty),
{
    let mut out: Vec<u8> = Vec::new();
    push_be16(&mut out, start);
    push_be16(&mut out, qty);
    proof {
        assert(out@ =~= be_bytes(start) + be_bytes(qty));
    }
    out
}

/// Serves one request PDU (function code `fc`, body `data`) for `unit` from
/// the emulator: the reply body after the function code, or an exception
/// code (0x01 unsupported function, 0x02 unknown unit or range past 0xFFFF,
/// 0x03 malformed request, among them a read of no items or of more than
/// Modbus allows: 2000 coils or inputs, 125 registers).
pub fn handle_pdu(emu: &mut Emulator, unit: u8, fc: u8, data: &[u8]) -> (r: Result<Vec<u8>, u8>)
    requires
        pdu_in_bounds(old(emu)@, unit, fc, data@),
    ensures
        match r {
            Ok(v) => spec_pdu_reply(old(emu)@, unit, fc, data@) == Ok::<Seq<u8>, u8>(v@),
            Err(e) => spec_pdu_reply(old(emu)@, unit, fc, data@) == Err::<Seq<u8>, u8>(e),
        },
        final(emu)@ == spec_pdu_after(old(emu)@, unit, fc, data@),
{
    if fc == 0x01 || fc == 0x02 {
        let (start, count) = match read_count(data, 2000) {
            Ok(p) => p,
            Err(e) => return Err(e),
        };
        let bits = if fc == 0x01 {
            emu.read_coils(unit, start, count)
        } else {
            emu.read_discrete_inputs(unit, start, count)
        };
        let bits = match bits {
            Ok(b) => b,
            Err(e) => return Err(e),
        };
        let byte_count: u16 = count / 8 + if count % 8 == 0 { 0 } else { 1 };
        let mut out: Vec<u8> = Vec::new();
        out.push(byte_count as u8);
        push_packed_bits(&mut out, bits.as_slice());
        return Ok(out);
    }
    if fc == 0x03 || fc == 0x04 {
        let (start, count) = match read_count(data, 125) {
            Ok(p) => p,
            Err(e) => return Err(e),
        };
        let regs = if fc == 0x03 {
            emu.read_holding_regs(unit, start, count)
        } else {
            emu.read_input_regs(unit, start, count)
        };
        let regs = match regs {
            Ok(v) => v,
            Err(e) => return Err(e),
        };
        let mut out: Vec<u8> = Vec::new();
        out.push((regs.len() * 2) as u8);
        push_regs_be(&mut out, regs.as_slice());
        return Ok(out);
    }
    if fc == 0x05 {
        if data.len() != 4 {
            return Err(0x03);
        }
        let addr = read_be16(data, 0);
        let raw = read_be16(data, 2);
        let value = if raw == 0x0000 {
            false
        } else if raw == 0xFF00 {
            true
        } else {
            return Err(0x03);
        };
        match emu.write_coil(unit, addr, value) {
            Ok(()) => {},
            Err(e) => return Err(e),
        }
        return Ok(copy_first4(data));
    }
    if fc == 0x06 {
        if data.len() != 4 {
            return Err(0x03);
        }
        let addr = read_be16(data, 0);
        let value = read_be16(data, 2);
        match emu.write_holding_reg(unit, addr, value) {
            Ok(()) => {},
            Err(e) => return Err(e),
        }
        return Ok(copy_first4(data));
    }
    if fc == 0x0F {
        if data.len() < 6 {
            return Err(0x03);
        }
        let start = read_be16(data, 0);
        let qty = read_be16(data, 2);
        let byte_count = data[4] as usize;
        let needed: usize = qty as usize / 8 + if qty % 8 == 0 { 0 } else { 1 };
        if qty == 0 || qty > 1968 || byte_count != needed || data.len() != 5 + byte_count {
            return Err(0x03);
        }
        let mut values: Vec<bool> = Vec::new();
        let mut i: usize = 0;
        while i < qty as usize
            invariant
                i <= qty,
                multi_coils_ok(data@),
                qty == field(data@, 2),
                values@ =~= tcp_coil_values(data@, qty).take(i as int),
            decreases qty - i,
        {
            proof {
                assert(i / 8 < data@[4]) by (nonlinear_arith)
                    requires
                        i < qty,
                        data@[4] as int == (qty as int + 7) / 8,
                ;
            }
            values.push((data[5 + i / 8] >> ((i % 8) as u8)) & 1 == 1);
            i = i + 1;
        }
        proof {
            assert(values@ =~= tcp_coil_values(data@, qty));
        }
        match emu.write_coils(unit, start, values.as_slice()) {
            Ok(()) => {},
            Err(e) => return Err(e),
        }
        return Ok(start_qty(start, qty));
    }
    if fc == 0x10 {
        if data.len() < 6 {
            return Err(0x03);
        }
        let start = read_be16(data, 0);
        let qty = read_be16(data, 2);
        let byte_count = data[4] as usize;
        if qty == 0 || qty > 123 || byte_count != qty as usize * 2 || data.len() != 5 + byte_count {
            return Err(0x03);
        }
        let mut values: Vec<u16> = Vec::new();
        let mut i: usize = 0;
        while i < qty as usize
            invariant
                i <= qty,
                multi_regs_ok(data@),
                qty == field(data@, 2),
                values@ =~= tcp_reg_values(data@, qty).take(i as int),
            decreases qty - i,
        {
            values.push(read_be16(data, 5 + 2 * i));
            i = i + 1;
        }
        proof {
            assert(values@ =~= tcp_reg_values(data@, qty));
        }
        match emu.write_holding_regs(unit, start, values.as_slice()) {
            Ok(()) => {},
            Err(e) => return Err(e),
        }
        return Ok(start_qty(start, qty));
    }
    Err(0x01)
}

/// The reply PDU for a request with function code `fc`: `[fc] + body`, or
/// `[fc | 0x80, code]` for an exception.
pub open spec fn reply_pdu(fc: u8, result: Result<Seq<u8>, u8>) -> Seq<u8> {
    match result {
        Ok(body) => seq![fc] + body,
        Err(code) => seq![(fc | 0x80u8) as u8, code],
    }
}

/// An MBAP frame: transaction id, protocol 0, length of what follows the
/// length field (unit byte and PDU, truncated to 16 bits), unit, PDU.
pub open spec fn mbap_frame(tid: u16, unit: u8, pdu: Seq<u8>) -> Seq<u8> {
    be_bytes(tid) + be_bytes(0) + be_bytes((1 + pdu.len()) as u16) + seq![unit] + pdu
}

/// Builds an MBAP frame around `pdu`.
pub fn build_mbap(tid: u16, unit: u8, pdu: &[u8]) -> (r: Vec<u8>)
    ensures
        r@ == mbap_frame(tid, unit, pdu@),
{
    let mut frame: Vec<u8> = Vec::new();
    push_be16(&mut frame, tid);
    push_be16(&mut frame, 0);
    let n: usize = pdu.len();
    let len: u16 = ((n % 0x10000 + 1) % 0x10000) as u16;
    assert(len == (1 + n) as u16) by (bit_vector)
        requires
            len == ((n % 0x10000 + 1) % 0x10000) as u16,
    ;
    push_be16(&mut frame, len);
    frame.push(unit);
    let mut i: usize = 0;
    while i < pdu.len()
        invariant
            i <= pdu@.len(),
            frame@ =~= be_bytes(tid) + be_bytes(0) + be_bytes((1 + pdu@.len()) as u16) + seq![unit]
                + pdu@.take(i as int),
        decreases pdu@.len() - i,
    {
        frame.push(pdu[i]);
        i = i + 1;
    }
    proof {
        assert(pdu@.take(pdu@.len() as int) =~= pdu@);
    }
    frame
}

/// What a request header announces: transaction id, unit and PDU length,
/// when the protocol is 0 and the length covers the unit and 1 to 253 PDU
/// bytes; nothing otherwise (the server then closes the connection).
pub open spec fn spec_request_header(hdr: Seq<u8>) -> Option<(u16, u8, nat)> {
    let len = field(hdr, 4);
    if field(hdr, 2) != 0 || len < 2 || len > 254 {
        None
    } else {
        Some((field(hdr, 0), hdr[6], (len - 1) as nat))
    }
}

/// Reads a 7-byte request header.
pub fn check_request_header(hdr: &[u8]) -> (r: Option<(u16, u8, usize)>)
    requires
        hdr@.len() == 7,
    ensures
        match r {
            Some((tid, unit, n)) => spec_request_header(hdr@) == Some((tid, unit, n as nat)),
            None => spec_request_header(hdr@) is None,
        },
{
    let tid = read_be16(hdr, 0);
    let proto = read_be16(hdr, 2);
    let len = read_be16(hdr, 4);
    let unit = hdr[6];
    if proto != 0 || len < 2 || len as usize > 1 + 253 {
        return None;
    }
    Some((tid, unit, len as usize - 1))
}

/// Checks `pdu_in_bounds` on a concrete request PDU (function code first);
/// a caller must not hand `serve_request` a PDU that fails it.
pub fn check_pdu_in_bounds(emu: &Emulator, unit: u8, pdu: &[u8]) -> (r: bool)
    requires
        pdu@.len() >= 1,
    ensures
        r == pdu_in_bounds(emu@, unit, pdu@[0], pdu@.skip(1)),
{
    let ghost data = pdu@.skip(1);
    let fc = pdu[0];
    if fc != 0x0F && fc != 0x10 {
        return true;
    }
    if pdu.len() < 7 {
        return true;
    }
    let start = read_be16(pdu, 1);
    let qty = read_be16(pdu, 3);
    let byte_count = pdu[5] as usize;
    proof {
        assert(field(data, 0) == start);
        assert(field(data, 2) == qty);
        assert(data[4] == pdu@[5]);
        assert(data.len() == pdu@.len() - 1);
    }
    let ok = if fc == 0x0F {
        1 <= qty && qty <= 1968 && byte_count == (qty as usize + 7) / 8 && pdu.len() == 6 + byte_count
    } else {
        1 <= qty && qty <= 123 && byte_count == 2 * (qty as usize) && pdu.len() == 6 + byte_count
    };
    if !ok {
        return true;
    }
    match emu.find(unit) {
        None => true,
        Some(_) => start as u32 + qty as u32 <= 0x10000,
    }
}

/// Serves one MBAP request whose header announced `tid` and `unit` and whose
/// PDU (function code and body) is `pdu`: the complete reply frame.
pub fn serve_request(emu: &mut Emulator, tid: u16, unit: u8, pdu: &[u8]) -> (r: Vec<u8>)
    requires
        pdu@.len() >= 1,
        pdu_in_bounds(old(emu)@, unit, pdu@[0], pdu@.skip(1)),
    ensures
        r@ == mbap_frame(
            tid,
            unit,
            reply_pdu(pdu@[0], spec_pdu_reply(old(emu)@, unit, pdu@[0], pdu@.skip(1))),
        ),
        final(emu)@ == spec_pdu_after(old(emu)@, unit, pdu@[0], pdu@.skip(1)),
{
    let fc = pdu[0];
    let mut body: Vec<u8> = Vec::new();
    let mut i: usize = 1;
    while i < pdu.len()
        invariant
            1 <= i <= pdu@.len(),
            body@ =~= pdu@.subrange(1, i as int),
        decreases pdu@.len() - i,
    {
        body.push(pdu[i]);
        i = i + 1;
    }
    proof {
        assert(body@ =~= pdu@.skip(1));
    }
    let resp_pdu: Vec<u8> = match handle_pdu(emu, unit, fc, body.as_slice()) {
        Ok(b) => {
            let mut out: Vec<u8> = Vec::new();
            out.push(fc);
            let mut k: usize = 0;
            while k < b.len()
                invariant
                    k <= b@.len(),
                    out@ =~= seq![fc] + b@.take(k as int),
                decreases b@.len() - k,
            {
                out.push(b[k]);
                k = k + 1;
            }
            proof {
                assert(b@.take(b@.len() as int) =~= b@);
            }
            out
        },
        Err(code) => {
            let mut out: Vec<u8> = Vec::new();
            out.push(fc | 0x80);
            out.push(code);
            proof {
                assert(out@ =~= seq![(fc | 0x80u8) as u8, code]);
            }
            out
        },
    };
    build_mbap(tid, unit, resp_pdu.as_slice())
}

/// True for an exception reply PDU: two bytes with the high bit of the
/// function code set.
pub fn is_exception_pdu(resp_pdu: &[u8]) -> (r: bool)
    ensures
        r == (resp_pdu@.len() == 2 && resp_pdu@[0] & 0x80u8 != 0),
{
    resp_pdu.len() == 2 && resp_pdu[0] & 0x80 != 0
}

/// The transaction id after `tid`: one more, skipping 0 on wrap-around.
pub fn next_tid(tid: u16) -> (r: u16)
    ensures
        r == (if tid == 0xFFFF { 1 } else { tid + 1 }),
{
    let n = tid.wrapping_add(1);
    if n < 1 { 1 } else { n }
}

/// A master request frame: `[tid][0][len][unit][fc]` + data.
pub fn build_tcp_request(tid: u16, unit: u8, fc: u8, pdu: &[u8]) -> (r: Vec<u8>)
    ensures
        r@ == mbap_frame(tid, unit, seq![fc] + pdu@),
{
    let mut full: Vec<u8> = Vec::new();
    full.push(fc);
    let mut i: usize = 0;
    while i < pdu.len()
        invariant
            i <= pdu@.len(),
            full@ =~= seq![fc] + pdu@.take(i as int),
        decreases pdu@.len() - i,
    {
        full.push(pdu[i]);
        i = i + 1;
    }
    proof {
        assert(pdu@.take(pdu@.len() as int) =~= pdu@);
    }
    build_mbap(tid, unit, full.as_slice())
}

/// Checks the header of a reply to request `tid` for `unit` and returns the
/// number of PDU bytes that follow. Errors: `Io("tid mismatch: sent T, got
/// U")`; `Io("bad MBAP header in response")` for a protocol other than 0, a
/// length under 2 or above 254, or another unit.
pub fn check_response_header(hdr: &[u8], tid: u16, unit: u8) -> (r: Result<usize, ModbusError>)
    requires
        hdr@.len() == 7,
    ensures
        field(hdr@, 0) != tid ==> (r matches Err(ModbusError::Io(m)) && m@ == "tid mismatch: sent "@
            + dec(tid as nat) + ", got "@ + dec(field(hdr@, 0) as nat)),
        field(hdr@, 0) == tid && (field(hdr@, 2) != 0 || field(hdr@, 4) < 2 || hdr@[6] != unit
            || field(hdr@, 4) > 254) ==> (r matches Err(ModbusError::Io(m)) && m@
            == "bad MBAP header in response"@),
        field(hdr@, 0) == tid && field(hdr@, 2) == 0 && 2 <= field(hdr@, 4) <= 254 && hdr@[6] == unit
            ==> r == Ok::<usize, ModbusError>((field(hdr@, 4) - 1) as usize),
{
    let tid_resp = read_be16(hdr, 0);
    let proto = read_be16(hdr, 2);
    let len = read_be16(hdr, 4);
    let unit_resp = hdr[6];
    if tid_resp != tid {
        let mut m = string_of("tid mismatch: sent ");
        push_dec(&mut m, tid as u64);
        push_str(&mut m, ", got ");
        push_dec(&mut m, tid_resp as u64);
        return Err(ModbusError::Io(m));
    }
    if proto != 0 || len < 2 || unit_resp != unit || len as usize > 1 + 253 {
        return Err(ModbusError::Io(string_of("bad MBAP header in response")));
    }
    Ok(len as usize - 1)
}

/// Takes apart a reply PDU for a request with function code `fc`: the data
/// after the function code; the exception's error for `fc | 0x80`; `Io` for
/// another function code.
pub fn check_response_pdu(body: &[u8], fc: u8) -> (r: Result<Vec<u8>, ModbusError>)
    requires
        body@.len() >= 1,
        body@[0] == (fc | 0x80u8) ==> body@.len() >= 2,
    ensures
        body@[0] == (fc | 0x80u8) ==> r == Err::<Vec<u8>, ModbusError>(spec_exception_error(body@[1])),
        body@[0] != (fc | 0x80u8) && body@[0] != fc ==> (r matches Err(ModbusError::Io(m)) && m@
            == "unexpected FC 0x"@ + hex2(body@[0]) + " (wanted 0x"@ + hex2(fc) + ")"@),
        body@[0] != (fc | 0x80u8) && body@[0] == fc ==> (r matches Ok(v) && v@ == body@.skip(1)),
{
    let resp_fc = body[0];
    if resp_fc == fc | 0x80 {
        return Err(exception_to_error(body[1]));
    }
    if resp_fc != fc {
        let mut m = string_of("unexpected FC 0x");
        push_hex2(&mut m, resp_fc);
        push_str(&mut m, " (wanted 0x");
        push_hex2(&mut m, fc);
        push_str(&mut m, ")");
        return Err(ModbusError::Io(m));
    }
    let mut out: Vec<u8> = Vec::new();
    let mut i: usize = 1;
    while i < body.len()
        invariant
            1 <= i <= body@.len(),
            out@ =~= body@.subrange(1, i as int),
        decreases body@.len() - i,
    {
        out.push(body[i]);
        i = i + 1;
    }
    proof {
        assert(out@ =~= body@.skip(1));
    }
    Ok(out)
}

/// A request frame built by the master is accepted by the server's header
/// check, which recovers the transaction id, the unit and the PDU length.
pub proof fn lemma_request_header_roundtrip(tid: u16, unit: u8, fc: u8, data: Seq<u8>)
    requires
        data.len() <= 252,
    ensures
        spec_request_header(mbap_frame(tid, unit, seq![fc] + data).take(7)) == Some(
            (tid, unit, (data.len() + 1) as nat),
        ),
        mbap_frame(tid, unit, seq![fc] + data).skip(7) == seq![fc] + data,
{
    let f = mbap_frame(tid, unit, seq![fc] + data);
    let h = f.take(7);
    assert(field(h, 0) == tid);
    assert(field(h, 2) == 0);
    assert(field(h, 4) == data.len() + 2);
    assert(f.skip(7) =~= seq![fc] + data);
}

/// Serving a request changes registers and coils only: the devices, their
/// addresses and their sensors stay as they were.
pub proof fn lemma_pdu_after_keeps_sensors(devs: Seq<DeviceView>, unit: u8, fc: u8, data: Seq<u8>)
    ensures
        spec_pdu_after(devs, unit, fc, data).len() == devs.len(),
        forall|i: int|
            0 <= i < devs.len() ==> (#[trigger] spec_pdu_after(devs, unit, fc, data)[i]).sensors
                == devs[i].sensors && spec_pdu_after(devs, unit, fc, data)[i].slave_id == devs[i].slave_id,
{
    crate::emulator::lemma_find_slave_from(devs, unit, 0);
}

/// A reply frame built by the server is accepted by the master's header
/// check for the same transaction and unit (`check_response_header` gives
/// `Ok` with the PDU's length), and what follows the header is the PDU.
pub proof fn lemma_reply_header_accepted(tid: u16, unit: u8, pdu: Seq<u8>)
    requires
        1 <= pdu.len() <= 253,
    ensures
        field(mbap_frame(tid, unit, pdu).take(7), 0) == tid,
        field(mbap_frame(tid, unit, pdu).take(7), 2) == 0,
        field(mbap_frame(tid, unit, pdu).take(7), 4) == pdu.len() + 1,
        mbap_frame(tid, unit, pdu).take(7)[6] == unit,
        mbap_frame(tid, unit, pdu).skip(7) == pdu,
{
    let f = mbap_frame(tid, unit, pdu);
    let h = f.take(7);
    assert(field(h, 0) == tid);
    assert(field(h, 2) == 0);
    assert(field(h, 4) == pdu.len() + 1);
    assert(f.skip(7) =~= pdu);
}

/// What a read gives back of a write, over Modbus TCP: after a write-single-
/// register request to an existing unit, a read of that register returns
/// the written value.
pub proof fn lemma_tcp_write_then_read(devs: Seq<DeviceView>, unit: u8, wdata: Seq<u8>, rdata: Seq<u8>)
    requires
        find_slave(devs, unit) >= 0,
        wdata.len() == 4,
        rdata.len() == 4,
        field(rdata, 0) == field(wdata, 0),
        field(rdata, 2) == 1,
    ensures
        spec_pdu_reply(spec_pdu_after(devs, unit, 0x06, wdata), unit, 0x03, rdata) == Ok::<Seq<u8>, u8>(
            seq![2u8] + be_bytes(field(wdata, 2)),
        ),
{
    let i = find_slave(devs, unit);
    crate::emulator::lemma_find_slave_from(devs, unit, 0);
    let after = spec_pdu_after(devs, unit, 0x06, wdata);
    assert(spec_pdu_reply(devs, unit, 0x06, wdata) is Ok);
    assert(after.len() == devs.len());
    assert(forall|j: int| 0 <= j < devs.len() ==> #[trigger] after[j].slave_id == devs[j].slave_id);
    assert(find_slave(after, unit) == i) by {
        lemma_find_slave_same_ids(devs, after, unit, 0);
    }
    let addr = field(wdata, 0);
    let value = field(wdata, 2);
    let got = read_or_default(after[i].holding, addr, 1, 0u16);
    assert(after[i].holding.contains_key((addr + 0) as u16));
    assert(got =~= seq![value]);
    let vals = seq![value];
    assert(regs_be(vals) =~= regs_be(vals.drop_last()) + be_bytes(value));
    assert(regs_be(vals.drop_last()) =~= Seq::<u8>::empty());
}

/// Write Single Coil means what Modbus says, over Modbus TCP: after a
/// function 0x05 request for coil `addr` with value 0xFF00 to an existing
/// unit, a function 0x01 read of that one coil answers one data byte whose
/// lowest bit is set; after value 0x0000 that bit is clear.
pub proof fn lemma_tcp_coil_write_then_read(devs: Seq<DeviceView>, unit: u8, wdata: Seq<u8>, rdata: Seq<u8>)
    requires
        find_slave(devs, unit) >= 0,
        wdata.len() == 4,
        field(wdata, 2) == 0xFF00 || field(wdata, 2) == 0,
        rdata.len() == 4,
        field(rdata, 0) == field(wdata, 0),
        field(rdata, 2) == 1,
    ensures
        spec_pdu_reply(spec_pdu_after(devs, unit, 0x05, wdata), unit, 0x01, rdata) matches Ok(r) && r.len()
            == 2 && r[0] == 1 && ((r[1] >> 0u8) & 1u8 == 1u8) == (field(wdata, 2) == 0xFF00),
{
    let i = find_slave(devs, unit);
    crate::emulator::lemma_find_slave_from(devs, unit, 0);
    let after = spec_pdu_after(devs, unit, 0x05, wdata);
    assert(spec_pdu_reply(devs, unit, 0x05, wdata) is Ok);
    assert(after.len() == devs.len());
    assert(forall|j: int| 0 <= j < devs.len() ==> #[trigger] after[j].slave_id == devs[j].slave_id);
    assert(find_slave(after, unit) == i) by {
        lemma_find_slave_same_ids(devs, after, unit, 0);
    }
    let addr = field(wdata, 0);
    let on = field(wdata, 2) == 0xFF00;
    let got = read_or_default(after[i].coils, addr, 1, false);
    assert(after[i].coils.contains_key((addr + 0) as u16));
    assert(got =~= seq![on]);
    assert(packed_len(1) == 1);
    let p = pack_bits(got);
    assert(p.len() == 1);
    crate::bits::lemma_pack_byte_bit(got, 0, 0);
    assert(p[0] == crate::bits::pack_byte(got, 0, 8));
}

/// Updating devices without changing any slave address keeps the lookup by
/// address unchanged.
pub proof fn lemma_find_slave_same_ids(a: Seq<DeviceView>, b: Seq<DeviceView>, slave: u8, i: int)
    requires
        a.len() == b.len(),
        forall|j: int| 0 <= j < a.len() ==> #[trigger] a[j].slave_id == b[j].slave_id,
        0 <= i <= a.len(),
    ensures
        crate::emulator::find_slave_from(a, slave, i) == crate::emulator::find_slave_from(b, slave, i),
    decreases a.len() - i,
{
    if i < a.len() {
        lemma_find_slave_same_ids(a, b, slave, i + 1);
    }
}

/// The bus-log entry the server records for a served request: the request
/// and reply frames in hex; a failure with the text `exception 0xNN` when
/// the reply carries an exception PDU (two bytes, high bit of the function
/// code set).
pub fn server_entry(fc: u8, req: &[u8], reply: &[u8], ms: u64) -> (r: TraceEntry)
    requires
        reply@.len() >= 7,
    ensures
        r.transport@ == "TCP"@,
        r.fc@ == spec_fc_name(fc),
        r.req@ == hex_join(req@),
        r.resp@ == hex_join(reply@),
        r.ok == !(reply@.len() == 9 && reply@[7] & 0x80u8 != 0),
        r.ok ==> r.err is None,
        !r.ok ==> (r.err matches Some(m) && m@ == "exception 0x"@ + hex2(reply@[8])),
        r.ms == ms,
{
    let exception = reply.len() == 9 && reply[7] & 0x80 != 0;
    let err = if exception {
        let mut m = string_of("exception 0x");
        push_hex2(&mut m, reply[8]);
        Some(m)
    } else {
        None
    };
    let r = trace_entry("TCP", fc, req, Some(reply), !exception, err, ms);
    proof {
        reveal_strlit("TCP");
    }
    r
}

} // verus!
