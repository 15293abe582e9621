//! Slave side of Modbus RTU: turns one received frame into the reply frame
//! and the change it makes to the register map.
//!
//! Supported functions: 0x01 read coils, 0x02 read discrete inputs (served
//! from the coils), 0x03 read holding registers, 0x04 read input registers,
//! 0x05 write single coil, 0x06 write single register, 0x0F write multiple
//! coils, 0x10 write multiple registers. Any other function code is answered
//! with exception 0x01 (illegal function); malformed requests with exception
//! 0x03 (illegal data value); reads of empty addresses with 0x02.

use crate::bits::{pack_bits, packed_len, push_packed_bits};
use crate::crc::{append_crc, with_crc};
use crate::crc::{crc_ok, lemma_append_then_verify, verify_crc};
use crate::register_map::{read_runs_off_end, spec_read_range, RegisterKind, RegisterMap, RegisterMapView};
use crate::wire::{be_bytes, field, push_be16, push_regs_be, read_be16, regs_be};
use vstd::prelude::*;

verus! {

/// Exception code for an unsupported function.
pub const ILLEGAL_FUNCTION: u8 = 0x01;

/// Exception code for a malformed request.
pub const ILLEGAL_DATA_VALUE: u8 = 0x03;

/// An exception reply: `[slave, fc | 0x80, code]` followed by its CRC.
pub open spec fn exception_reply(slave_id: u8, fc: u8, code: u8) -> Seq<u8> {
    with_crc(seq![slave_id, (fc | 0x80u8) as u8, code])
}

/// Reply to a bit read (FC 0x01 / 0x02), answered under function code `fc`.
pub open spec fn read_bits_reply(frame: Seq<u8>, slave_id: u8, fc: u8, coils: Map<u16, bool>) -> Seq<u8> {
    if frame.len() < 8 {
        exception_reply(slave_id, fc, ILLEGAL_DATA_VALUE)
    } else {
        let start = field(frame, 2);
        let count = field(frame, 4);
        if count == 0 || count > 2000 {
            exception_reply(slave_id, fc, ILLEGAL_DATA_VALUE)
        } else {
            match spec_read_range(coils, start, count) {
                Ok(bits) => with_crc(
                    seq![slave_id, fc, packed_len(count as nat) as u8] + pack_bits(bits),
                ),
                Err(code) => exception_reply(slave_id, fc, code),
            }
        }
    }
}

/// Reply to a register read (FC 0x03 / 0x04) from `regs`.
pub open spec fn read_regs_reply(frame: Seq<u8>, slave_id: u8, fc: u8, regs: Map<u16, u16>) -> Seq<u8> {
    if frame.len() < 8 {
        exception_reply(slave_id, fc, ILLEGAL_DATA_VALUE)
    } else {
        let start = field(frame, 2);
        let count = field(frame, 4);
        if count == 0 || count > 125 {
            exception_reply(slave_id, fc, ILLEGAL_DATA_VALUE)
        } else {
            match spec_read_range(regs, start, count) {
                Ok(vals) => with_crc(seq![slave_id, fc, (2 * count) as u8] + regs_be(vals)),
                Err(code) => exception_reply(slave_id, fc, code),
            }
        }
    }
}

/// A write-single-coil request carries a valid value (0xFF00 or 0x0000).
pub open spec fn single_coil_valid(frame: Seq<u8>) -> bool {
    frame.len() >= 8 && (field(frame, 4) == 0xFF00 || field(frame, 4) == 0)
}

/// Reply to FC 0x05: the first six bytes echoed with a fresh CRC.
pub open spec fn write_single_coil_reply(frame: Seq<u8>, slave_id: u8) -> Seq<u8> {
    if single_coil_valid(frame) {
        with_crc(frame.take(6))
    } else {
        exception_reply(slave_id, 0x05, ILLEGAL_DATA_VALUE)
    }
}

/// Reply to FC 0x06: the first six bytes echoed with a fresh CRC.
pub open spec fn write_single_register_reply(frame: Seq<u8>, slave_id: u8) -> Seq<u8> {
    if frame.len() >= 8 {
        with_crc(frame.take(6))
    } else {
        exception_reply(slave_id, 0x06, ILLEGAL_DATA_VALUE)
    }
}

/// A write-multiple request (FC 0x0F / 0x10) long enough for its byte count.
pub open spec fn multi_write_framed(frame: Seq<u8>) -> bool {
    frame.len() >= 9 && frame.len() >= 9 + frame[6] as int
}

/// A write-multiple-registers request whose byte count matches its quantity.
pub open spec fn multi_regs_valid(frame: Seq<u8>) -> bool {
    multi_write_framed(frame) && frame[6] as int == 2 * field(frame, 4)
}

/// The acknowledgement of a multiple write: slave, fc, start and quantity.
pub open spec fn multi_write_ack(frame: Seq<u8>, slave_id: u8, fc: u8) -> Seq<u8> {
    with_crc(seq![slave_id, fc] + be_bytes(field(frame, 2)) + be_bytes(field(frame, 4)))
}

/// Reply to FC 0x0F.
pub open spec fn write_multi_coils_reply(frame: Seq<u8>, slave_id: u8) -> Seq<u8> {
    if multi_write_framed(frame) {
        multi_write_ack(frame, slave_id, 0x0F)
    } else {
        exception_reply(slave_id, 0x0F, ILLEGAL_DATA_VALUE)
    }
}

/// Reply to FC 0x10.
pub open spec fn write_multi_regs_reply(frame: Seq<u8>, slave_id: u8) -> Seq<u8> {
    if multi_regs_valid(frame) {
        multi_write_ack(frame, slave_id, 0x10)
    } else {
        exception_reply(slave_id, 0x10, ILLEGAL_DATA_VALUE)
    }
}

/// Value of coil `i` in a write-multiple-coils request.
pub open spec fn coil_bit(frame: Seq<u8>, i: int) -> bool {
    (frame[7 + i / 8] >> ((i % 8) as u8)) & 1u8 == 1u8
}

/// The coils after the first `n` values of a multiple-coil write.
pub open spec fn coils_after_multi(m: Map<u16, bool>, frame: Seq<u8>, start: u16, n: int) -> Map<
    u16,
    bool,
>
    decreases n,
{
    if n <= 0 {
        m
    } else {
        coils_after_multi(m, frame, start, n - 1).insert((start + n - 1) as u16, coil_bit(frame, n - 1))
    }
}

proof fn lemma_coils_after_multi(m: Map<u16, bool>, frame: Seq<u8>, start: u16, n: int)
    requires
        0 <= n,
        start + n <= 0x10000,
    ensures
        forall|i: int|
            0 <= i < n ==> #[trigger] coils_after_multi(m, frame, start, n).contains_key((start + i) as u16)
                && coils_after_multi(m, frame, start, n)[(start + i) as u16] == coil_bit(frame, i),
        forall|a: u16|
            (a < start || a >= start + n) ==> (#[trigger] coils_after_multi(m, frame, start, n).contains_key(a)
                == m.contains_key(a)) && (m.contains_key(a) ==> coils_after_multi(m, frame, start, n)[a]
                == m[a]),
    decreases n,
{
    if n > 0 {
        lemma_coils_after_multi(m, frame, start, n - 1);
        let prev = coils_after_multi(m, frame, start, n - 1);
        let k = (start + n - 1) as u16;
        let cur = coils_after_multi(m, frame, start, n);
        assert(cur == prev.insert(k, coil_bit(frame, n - 1)));
        assert(k as int == start + n - 1);
        assert forall|i: int| 0 <= i < n implies #[trigger] cur.contains_key((start + i) as u16) && cur[(
        start + i) as u16] == coil_bit(frame, i) by {
            if i < n - 1 {
                assert((start + i) as u16 as int == start + i);
                assert((start + i) as u16 != k);
            } else {
                assert((start + i) as u16 == k);
            }
        }
        assert forall|a: u16| (a < start || a >= start + n) implies (#[trigger] cur.contains_key(a)
            == m.contains_key(a)) && (m.contains_key(a) ==> cur[a] == m[a]) by {
            assert(a != k);
        }
    }
}

/// The holding registers after the first `n` values of a multiple-register
/// write.
pub open spec fn holding_after_multi(m: Map<u16, u16>, frame: Seq<u8>, start: u16, n: int) -> Map<
    u16,
    u16,
>
    decreases n,
{
    if n <= 0 {
        m
    } else {
        holding_after_multi(m, frame, start, n - 1).insert(
            (start + n - 1) as u16,
            field(frame, 7 + 2 * (n - 1)),
        )
    }
}

/// The reply to a request addressed to this slave whose CRC checked out.
/// `discrete_fc` is the function code under which a discrete-input read
/// (FC 0x02) is answered.
pub open spec fn spec_reply(frame: Seq<u8>, slave_id: u8, discrete_fc: u8, m: RegisterMapView) -> Seq<
    u8,
> {
    let fc = frame[1];
    if fc == 0x01 {
        read_bits_reply(frame, slave_id, 0x01, m.coils)
    } else if fc == 0x02 {
        read_bits_reply(frame, slave_id, discrete_fc, m.coils)
    } else if fc == 0x03 {
        read_regs_reply(frame, slave_id, 0x03, m.holding)
    } else if fc == 0x04 {
        read_regs_reply(frame, slave_id, 0x04, m.input)
    } else if fc == 0x05 {
        write_single_coil_reply(frame, slave_id)
    } else if fc == 0x06 {
        write_single_register_reply(frame, slave_id)
    } else if fc == 0x0F {
        write_multi_coils_reply(frame, slave_id)
    } else if fc == 0x10 {
        write_multi_regs_reply(frame, slave_id)
    } else {
        exception_reply(slave_id, fc, ILLEGAL_FUNCTION)
    }
}

/// The register map after such a request.
pub open spec fn spec_map_after(frame: Seq<u8>, m: RegisterMapView) -> RegisterMapView {
    let fc = frame[1];
    if fc == 0x05 && single_coil_valid(frame) {
        RegisterMapView {
            coils: m.coils.insert(field(frame, 2), field(frame, 4) == 0xFF00),
            ..m
        }
    } else if fc == 0x06 && frame.len() >= 8 {
        RegisterMapView { holding: m.holding.insert(field(frame, 2), field(frame, 4)), ..m }
    } else if fc == 0x0F && multi_write_framed(frame) {
        RegisterMapView {
            coils: coils_after_multi(m.coils, frame, field(frame, 2), field(frame, 4) as int),
            ..m
        }
    } else if fc == 0x10 && multi_regs_valid(frame) {
        RegisterMapView {
            holding: holding_after_multi(m.holding, frame, field(frame, 2), field(frame, 4) as int),
            ..m
        }
    } else {
        m
    }
}

/// A request the slave can serve without its address arithmetic leaving the
/// 16-bit range and without reading past the end of the frame. The requests
/// outside it are those on which the handlers would run off the end of the
/// address space or of the frame.
pub open spec fn request_in_bounds(frame: Seq<u8>, m: RegisterMapView) -> bool {
    let fc = frame[1];
    let start = field(frame, 2);
    let count = field(frame, 4);
    &&& (fc == 0x01 || fc == 0x02) && frame.len() >= 8 && 1 <= count <= 2000 ==> !read_runs_off_end(
        m.coils,
        start,
        count,
    )
    &&& fc == 0x03 && frame.len() >= 8 && 1 <= count <= 125 ==> !read_runs_off_end(
        m.holding,
        start,
        count,
    )
    &&& fc == 0x04 && frame.len() >= 8 && 1 <= count <= 125 ==> !read_runs_off_end(
        m.input,
        start,
        count,
    )
    &&& fc == 0x0F && multi_write_framed(frame) && count >= 1 ==> {
        &&& 7 + (count - 1) / 8 < frame.len()
        &&& start as int + count as int <= 0x10000
    }
    &&& fc == 0x10 && multi_regs_valid(frame) ==> start as int + count as int <= 0x10000
}

/// Builds an exception reply: `[slave, fc | 0x80, code]` and its CRC.
pub fn build_exception_response(slave_id: u8, function_code: u8, exception_code: u8) -> (r: Vec<u8>)
    ensures
        r@ == exception_reply(slave_id, function_code, exception_code),
{
    let mut response: Vec<u8> = Vec::new();
    response.push(slave_id);
    response.push(function_code | 0x80);
    response.push(exception_code);
    proof {
        assert(response@ =~= seq![slave_id, (function_code | 0x80u8) as u8, exception_code]);
    }
    append_crc(&mut response);
    response
}

/// Serves a bit read (FC 0x01 or 0x02) from the coils, answering under `fc`.
pub fn handle_read_bits(frame: &[u8], slave_id: u8, fc: u8, map: &RegisterMap) -> (r: Vec<u8>)
    requires
        frame@.len() >= 8 && 1 <= field(frame@, 4) <= 2000 ==> !read_runs_off_end(
            map@.coils,
            field(frame@, 2),
            field(frame@, 4),
        ),
    ensures
        r@ == read_bits_reply(frame@, slave_id, fc, map@.coils),
{
    if frame.len() < 8 {
        return build_exception_response(slave_id, fc, ILLEGAL_DATA_VALUE);
    }
    let start = read_be16(frame, 2);
    let count = read_be16(frame, 4);
    if count == 0 || count > 2000 {
        return build_exception_response(slave_id, fc, ILLEGAL_DATA_VALUE);
    }
    match map.read_coils(start, count) {
        Ok(coils) => {
            let mut response: Vec<u8> = Vec::new();
            response.push(slave_id);
            response.push(fc);
            let byte_count: u16 = count / 8 + if count % 8 == 0 { 0 } else { 1 };
            response.push(byte_count as u8);
            proof {
                assert(coils@.len() == count);
                assert(response@ =~= seq![slave_id, fc, packed_len(count as nat) as u8]);
            }
            push_packed_bits(&mut response, coils.as_slice());
            append_crc(&mut response);
            response
        },
        Err(code) => build_exception_response(slave_id, fc, code),
    }
}

/// Serves FC 0x01 (read coils).
pub fn handle_read_coils(frame: &[u8], slave_id: u8, map: &RegisterMap) -> (r: Vec<u8>)
    requires
        frame@.len() >= 8 && 1 <= field(frame@, 4) <= 2000 ==> !read_runs_off_end(
            map@.coils,
            field(frame@, 2),
            field(frame@, 4),
        ),
    ensures
        r@ == read_bits_reply(frame@, slave_id, 0x01, map@.coils),
{
    handle_read_bits(frame, slave_id, 0x01, map)
}

/// Serves FC 0x02 (read discrete inputs) from the coils.
pub fn handle_read_discrete_inputs(frame: &[u8], slave_id: u8, map: &RegisterMap) -> (r: Vec<u8>)
    requires
        frame@.len() >= 8 && 1 <= field(frame@, 4) <= 2000 ==> !read_runs_off_end(
            map@.coils,
            field(frame@, 2),
            field(frame@, 4),
        ),
    ensures
        r@ == read_bits_reply(frame@, slave_id, 0x02, map@.coils),
{
    handle_read_bits(frame, slave_id, 0x02, map)
}

fn handle_read_regs(frame: &[u8], slave_id: u8, fc: u8, map: &RegisterMap) -> (r: Vec<u8>)
    requires
        fc == 0x03 || fc == 0x04,
        frame@.len() >= 8 && 1 <= field(frame@, 4) <= 125 ==> !read_runs_off_end(
            if fc == 0x03 {
                map@.holding
            } else {
                map@.input
            },
            field(frame@, 2),
            field(frame@, 4),
        ),
    ensures
        r@ == read_regs_reply(
            frame@,
            slave_id,
            fc,
            if fc == 0x03 {
                map@.holding
            } else {
                map@.input
            },
        ),
{
    if frame.len() < 8 {
        return build_exception_response(slave_id, fc, ILLEGAL_DATA_VALUE);
    }
    let start = read_be16(frame, 2);
    let count = read_be16(frame, 4);
    if count == 0 || count > 125 {
        return build_exception_response(slave_id, fc, ILLEGAL_DATA_VALUE);
    }
    let read = if fc == 0x03 {
        map.read_holding_registers(start, count)
    } else {
        map.read_input_registers(start, count)
    };
    match read {
        Ok(values) => {
            let mut response: Vec<u8> = Vec::new();
            response.push(slave_id);
            response.push(fc);
            response.push((values.len() * 2) as u8);
            proof {
                assert(response@ =~= seq![slave_id, fc, (2 * count) as u8]);
            }
            push_regs_be(&mut response, values.as_slice());
            append_crc(&mut response);
            response
        },
        Err(code) => build_exception_response(slave_id, fc, code),
    }
}

/// Serves FC 0x03 (read holding registers).
pub fn handle_read_holding_registers(frame: &[u8], slave_id: u8, map: &RegisterMap) -> (r: Vec<u8>)
    requires
        frame@.len() >= 8 && 1 <= field(frame@, 4) <= 125 ==> !read_runs_off_end(
            map@.holding,
            field(frame@, 2),
            field(frame@, 4),
        ),
    ensures
        r@ == read_regs_reply(frame@, slave_id, 0x03, map@.holding),
{
    handle_read_regs(frame, slave_id, 0x03, map)
}

/// Serves FC 0x04 (read input registers).
pub fn handle_read_input_registers(frame: &[u8], slave_id: u8, map: &RegisterMap) -> (r: Vec<u8>)
    requires
        frame@.len() >= 8 && 1 <= field(frame@, 4) <= 125 ==> !read_runs_off_end(
            map@.input,
            field(frame@, 2),
            field(frame@, 4),
        ),
    ensures
        r@ == read_regs_reply(frame@, slave_id, 0x04, map@.input),
{
    handle_read_regs(frame, slave_id, 0x04, map)
}

fn echo_with_crc(frame: &[u8]) -> (r: Vec<u8>)
    requires
        frame@.len() >= 6,
    ensures
        r@ == with_crc(frame@.take(6)),
{
    let mut response: Vec<u8> = Vec::new();
    let mut i: usize = 0;
    while i < 6
        invariant
            i <= 6,
            frame@.len() >= 6,
            response@ =~= frame@.take(i as int),
        decreases 6 - i,
    {
        response.push(frame[i]);
        i = i + 1;
    }
    append_crc(&mut response);
    response
}

/// Serves FC 0x05 (write single coil): 0xFF00 switches the coil on, 0x0000
/// off; any other value is exception 0x03.
pub fn handle_write_single_coil(frame: &[u8], slave_id: u8, map: &mut RegisterMap) -> (r: Vec<u8>)
    ensures
        r@ == write_single_coil_reply(frame@, slave_id),
        final(map)@.coils == (if single_coil_valid(frame@) {
            old(map)@.coils.insert(field(frame@, 2), field(frame@, 4) == 0xFF00)
        } else {
            old(map)@.coils
        }),
        final(map)@.holding == old(map)@.holding,
        final(map)@.input == old(map)@.input,
{
    if frame.len() < 8 {
        return build_exception_response(slave_id, 0x05, ILLEGAL_DATA_VALUE);
    }
    let coil_addr = read_be16(frame, 2);
    let value = read_be16(frame, 4);
    let coil_value = if value == 0xFF00 {
        true
    } else if value == 0x0000 {
        false
    } else {
        return build_exception_response(slave_id, 0x05, ILLEGAL_DATA_VALUE);
    };
    match map.write_coil(coil_addr, coil_value) {
        Ok(()) => echo_with_crc(frame),
        Err(code) => build_exception_response(slave_id, 0x05, code),
    }
}

/// Serves FC 0x06 (write single register).
pub fn handle_write_single_register(frame: &[u8], slave_id: u8, map: &mut RegisterMap) -> (r: Vec<u8>)
    ensures
        r@ == write_single_register_reply(frame@, slave_id),
        final(map)@.holding == (if frame@.len() >= 8 {
            old(map)@.holding.insert(field(frame@, 2), field(frame@, 4))
        } else {
            old(map)@.holding
        }),
        final(map)@.coils == old(map)@.coils,
        final(map)@.input == old(map)@.input,
{
    if frame.len() < 8 {
        return build_exception_response(slave_id, 0x06, ILLEGAL_DATA_VALUE);
    }
    let reg_addr = read_be16(frame, 2);
    let value = read_be16(frame, 4);
    match map.write_holding_register(reg_addr, value) {
        Ok(()) => echo_with_crc(frame),
        Err(code) => build_exception_response(slave_id, 0x06, code),
    }
}

fn multi_ack(slave_id: u8, fc: u8, start: u16, count: u16) -> (r: Vec<u8>)
    ensures
        r@ == with_crc(seq![slave_id, fc] + be_bytes(start) + be_bytes(count)),
{
    let mut response: Vec<u8> = Vec::new();
    response.push(slave_id);
    response.push(fc);
    proof {
        assert(response@ =~= seq![slave_id, fc]);
    }
    push_be16(&mut response, start);
    push_be16(&mut response, count);
    append_crc(&mut response);
    response
}

/// Serves FC 0x0F (write multiple coils): coil `start + i` takes bit `i % 8`
/// of data byte `i / 8`.
pub fn handle_write_multiple_coils(frame: &[u8], slave_id: u8, map: &mut RegisterMap) -> (r: Vec<u8>)
    requires
        multi_write_framed(frame@) && field(frame@, 4) >= 1 ==> {
            &&& 7 + (field(frame@, 4) - 1) / 8 < frame@.len()
            &&& field(frame@, 2) as int + field(frame@, 4) as int <= 0x10000
        },
    ensures
        r@ == write_multi_coils_reply(frame@, slave_id),
        final(map)@.coils == (if multi_write_framed(frame@) {
            coils_after_multi(old(map)@.coils, frame@, field(frame@, 2), field(frame@, 4) as int)
        } else {
            old(map)@.coils
        }),
        final(map)@.holding == old(map)@.holding,
        final(map)@.input == old(map)@.input,
{
    if frame.len() < 9 {
        return build_exception_response(slave_id, 0x0F, ILLEGAL_DATA_VALUE);
    }
    let start = read_be16(frame, 2);
    let count = read_be16(frame, 4);
    let byte_count = frame[6] as usize;
    if frame.len() < 7 + byte_count + 2 {
        return build_exception_response(slave_id, 0x0F, ILLEGAL_DATA_VALUE);
    }
    let mut i: u16 = 0;
    while i < count
        invariant
            i <= count,
            count == field(frame@, 4),
            start == field(frame@, 2),
            multi_write_framed(frame@),
            count >= 1 ==> 7 + (count - 1) / 8 < frame@.len(),
            start as int + count as int <= 0x10000 || count == 0,
            map@.coils == coils_after_multi(old(map)@.coils, frame@, start, i as int),
            map@.holding == old(map)@.holding,
            map@.input == old(map)@.input,
        decreases count - i,
    {
        let byte_idx: usize = 7 + (i as usize) / 8;
        let bit_idx: u8 = (i % 8) as u8;
        let value = (frame[byte_idx] >> bit_idx) & 1 == 1;
        let addr: u16 = start + i;
        match map.write_coil(addr, value) {
            Ok(()) => {},
            Err(code) => {
                return build_exception_response(slave_id, 0x0F, code);
            },
        }
        i = i + 1;
    }
    multi_ack(slave_id, 0x0F, start, count)
}

/// Serves FC 0x10 (write multiple registers): register `start + i` takes
/// the big-endian value at data bytes `2i`, `2i + 1`; the byte count must be
/// twice the quantity.
pub fn handle_write_multiple_registers(frame: &[u8], slave_id: u8, map: &mut RegisterMap) -> (r: Vec<
    u8,
>)
    requires
        multi_regs_valid(frame@) ==> field(frame@, 2) as int + field(frame@, 4) as int
            <= 0x10000,
    ensures
        r@ == write_multi_regs_reply(frame@, slave_id),
        final(map)@.holding == (if multi_regs_valid(frame@) {
            holding_after_multi(old(map)@.holding, frame@, field(frame@, 2), field(frame@, 4) as int)
        } else {
            old(map)@.holding
        }),
        final(map)@.coils == old(map)@.coils,
        final(map)@.input == old(map)@.input,
{
    if frame.len() < 9 {
        return build_exception_response(slave_id, 0x10, ILLEGAL_DATA_VALUE);
    }
    let start = read_be16(frame, 2);
    let count = read_be16(frame, 4);
    let byte_count = frame[6] as usize;
    if frame.len() < 7 + byte_count + 2 {
        return build_exception_response(slave_id, 0x10, ILLEGAL_DATA_VALUE);
    }
    if byte_count != (count as usize) * 2 {
        return build_exception_response(slave_id, 0x10, ILLEGAL_DATA_VALUE);
    }
    let mut i: u16 = 0;
    while i < count
        invariant
            i <= count,
            count == field(frame@, 4),
            start == field(frame@, 2),
            multi_regs_valid(frame@),
            start as int + count as int <= 0x10000,
            map@.holding == holding_after_multi(old(map)@.holding, frame@, start, i as int),
            map@.coils == old(map)@.coils,
            map@.input == old(map)@.input,
        decreases count - i,
    {
        let offset: usize = 7 + (i as usize) * 2;
        let value = read_be16(frame, offset);
        let addr: u16 = start + i;
        match map.write_holding_register(addr, value) {
            Ok(()) => {},
            Err(code) => {
                return build_exception_response(slave_id, 0x10, code);
            },
        }
        i = i + 1;
    }
    multi_ack(slave_id, 0x10, start, count)
}

/// Dispatches a request already known to be addressed to this slave and to
/// carry a good CRC. `discrete_fc` is the function code under which a
/// discrete-input read is answered.
pub fn dispatch_request(frame: &[u8], slave_id: u8, discrete_fc: u8, map: &mut RegisterMap) -> (r:
    Vec<u8>)
    requires
        frame@.len() >= 2,
        request_in_bounds(frame@, old(map)@),
    ensures
        r@ == spec_reply(frame@, slave_id, discrete_fc, old(map)@),
        final(map)@ == spec_map_after(frame@, old(map)@),
{
    let fc = frame[1];
    if fc == 0x01 {
        handle_read_bits(frame, slave_id, 0x01, map)
    } else if fc == 0x02 {
        handle_read_bits(frame, slave_id, discrete_fc, map)
    } else if fc == 0x03 {
        handle_read_holding_registers(frame, slave_id, map)
    } else if fc == 0x04 {
        handle_read_input_registers(frame, slave_id, map)
    } else if fc == 0x05 {
        handle_write_single_coil(frame, slave_id, map)
    } else if fc == 0x06 {
        handle_write_single_register(frame, slave_id, map)
    } else if fc == 0x0F {
        handle_write_multiple_coils(frame, slave_id, map)
    } else if fc == 0x10 {
        handle_write_multiple_registers(frame, slave_id, map)
    } else {
        build_exception_response(slave_id, fc, ILLEGAL_FUNCTION)
    }
}

/// Checks `request_in_bounds` on a concrete request; a caller that must not
/// hand an out-of-bounds request to the handlers tests it first.
pub fn check_request_in_bounds(frame: &[u8], map: &RegisterMap) -> (r: bool)
    requires
        frame@.len() >= 2,
    ensures
        r == request_in_bounds(frame@, map@),
{
    let fc = frame[1];
    if frame.len() < 8 {
        // Only the multiple writes need at least 9 bytes, so nothing can go
        // out of bounds on a shorter frame.
        return true;
    }
    let start = read_be16(frame, 2);
    let count = read_be16(frame, 4);
    if (fc == 0x01 || fc == 0x02) && 1 <= count && count <= 2000 {
        return !map.read_runs_off_end(RegisterKind::Coil, start, count);
    }
    if fc == 0x03 && 1 <= count && count <= 125 {
        return !map.read_runs_off_end(RegisterKind::Holding, start, count);
    }
    if fc == 0x04 && 1 <= count && count <= 125 {
        return !map.read_runs_off_end(RegisterKind::Input, start, count);
    }
    if frame.len() < 9 || frame.len() < 9 + frame[6] as usize {
        return true;
    }
    if fc == 0x0F && count >= 1 {
        return 7 + (count as usize - 1) / 8 < frame.len() && start as u32 + count as u32 <= 0x10000;
    }
    if fc == 0x10 && frame[6] as u32 == 2 * count as u32 {
        return start as u32 + count as u32 <= 0x10000;
    }
    true
}

/// What the firmware does with a received frame: `Err(())` when it is too
/// short to be a frame (under 4 bytes); `Ok(None)` when it is addressed to
/// another slave (neither `slave_id` nor broadcast 0) or its CRC is wrong;
/// otherwise `Ok(Some(reply))`, with the register map updated by the
/// request. Discrete-input reads are answered under function code 0x02.
pub fn handle_frame(frame: &[u8], slave_id: u8, map: &mut RegisterMap) -> (r: Result<
    Option<Vec<u8>>,
    (),
>)
    requires
        frame@.len() >= 4 && (frame@[0] == slave_id || frame@[0] == 0) && crc_ok(frame@, 3)
            ==> request_in_bounds(frame@, old(map)@),
    ensures
        frame@.len() < 4 ==> r == Err::<Option<Vec<u8>>, ()>(()) && final(map)@ == old(map)@,
        frame@.len() >= 4 && !((frame@[0] == slave_id || frame@[0] == 0) && crc_ok(frame@, 3))
            ==> r == Ok::<Option<Vec<u8>>, ()>(None) && final(map)@ == old(map)@,
        frame@.len() >= 4 && (frame@[0] == slave_id || frame@[0] == 0) && crc_ok(frame@, 3) ==> {
            &&& r matches Ok(Some(reply))
            &&& reply@ == spec_reply(frame@, slave_id, 0x02, old(map)@)
            &&& final(map)@ == spec_map_after(frame@, old(map)@)
        },
{
    if frame.len() < 4 {
        return Err(());
    }
    if frame[0] != slave_id && frame[0] != 0 {
        return Ok(None);
    }
    if !verify_crc(frame) {
        return Ok(None);
    }
    Ok(Some(dispatch_request(frame, slave_id, 0x02, map)))
}

/// The PC-side slave emulator: a serial port description and the register
/// map it serves.
pub struct RtuSlave {
    pub port: String,
    pub baud_rate: u32,
    pub slave_id: u8,
    pub register_map: RegisterMap,
}

impl RtuSlave {
    /// A slave serving `register_map` as `slave_id` on `port` at `baud_rate`.
    pub fn new(port: String, baud_rate: u32, slave_id: u8, register_map: RegisterMap) -> (r: Self)
        ensures
            r.port == port,
            r.baud_rate == baud_rate,
            r.slave_id == slave_id,
            r.register_map@ == register_map@,
    {
        RtuSlave { port, baud_rate, slave_id, register_map }
    }

    /// Silence before a reply, in milliseconds: 3.5 characters of 11 bits at
    /// the configured baud rate, rounded down, plus one.
    pub fn inter_frame_gap_ms(&self) -> (r: u64)
        requires
            self.baud_rate > 0,
        ensures
            r == 385000int / (self.baud_rate as int) + 1,
    {
        (35 * 11 * 1000) / (self.baud_rate as u64) + 1
    }

    /// Serves one request: `None` for a frame under 4 bytes, with a wrong
    /// CRC, or addressed to another slave (the frame is checked in that
    /// order); otherwise the reply, with the register map updated.
    /// Discrete-input reads are served as coil reads (function code 0x01).
    pub fn handle_request(&mut self, frame: &[u8]) -> (r: Option<Vec<u8>>)
        requires
            frame@.len() >= 4 && crc_ok(frame@, 3) && (frame@[0] == old(self).slave_id || frame@[0]
                == 0) ==> request_in_bounds(frame@, old(self).register_map@),
        ensures
            final(self).slave_id == old(self).slave_id,
            final(self).port == old(self).port,
            final(self).baud_rate == old(self).baud_rate,
            !(frame@.len() >= 4 && crc_ok(frame@, 3) && (frame@[0] == old(self).slave_id || frame@[0]
                == 0)) ==> r is None && final(self).register_map@ == old(self).register_map@,
            frame@.len() >= 4 && crc_ok(frame@, 3) && (frame@[0] == old(self).slave_id || frame@[0]
                == 0) ==> {
                &&& r matches Some(reply)
                &&& reply@ == spec_reply(frame@, old(self).slave_id, 0x01, old(self).register_map@)
                &&& final(self).register_map@ == spec_map_after(frame@, old(self).register_map@)
            },
    {
        if frame.len() < 4 {
            return None;
        }
        if !verify_crc(frame) {
            return None;
        }
        let slave_id = frame[0];
        if slave_id != self.slave_id && slave_id != 0 {
            return None;
        }
        let me = self.slave_id;
        Some(dispatch_request(frame, me, 0x01, &mut self.register_map))
    }

    /// Builds an exception reply under this slave's address.
    pub fn build_exception_response(&self, function_code: u8, exception_code: u8) -> (r: Vec<u8>)
        ensures
            r@ == exception_reply(self.slave_id, function_code, exception_code),
    {
        build_exception_response(self.slave_id, function_code, exception_code)
    }
}

/// What a read gives back of a write, over the wire: after a write-single-
/// register request for `addr` and `value`, a read-holding-registers request
/// for that one address is answered with exactly `value`.
pub proof fn lemma_write_then_read_register(
    write: Seq<u8>,
    read: Seq<u8>,
    slave_id: u8,
    discrete_fc: u8,
    m: RegisterMapView,
)
    requires
        write.len() >= 8,
        write[1] == 0x06,
        read.len() >= 8,
        read[1] == 0x03,
        field(read, 2) == field(write, 2),
        field(read, 4) == 1,
    ensures
        spec_reply(read, slave_id, discrete_fc, spec_map_after(write, m)) == with_crc(
            seq![slave_id, 0x03u8, 2u8] + be_bytes(field(write, 4)),
        ),
{
    let m2 = spec_map_after(write, m);
    let addr = field(write, 2);
    let value = crate::wire::field(write, 4);
    assert(m2.holding == m.holding.insert(addr, value));
    crate::register_map::lemma_read_after_write(m.holding, addr, value, addr, 1);
    let vals = seq![value];
    assert(regs_be(vals) =~= regs_be(vals.drop_last()) + be_bytes(value));
    assert(regs_be(vals.drop_last()) =~= Seq::<u8>::empty());
    assert(regs_be(vals) =~= be_bytes(value));
}

/// Write Multiple Coils means what Modbus says: after a function 0x0F
/// request for `count` coils from `start`, coil `start + i` holds bit
/// `i % 8` of data byte `i / 8` (the bytes after the byte count), for every
/// `i < count`, and every coil outside the range is as it was.
pub proof fn lemma_multi_coil_write_sets_bits(frame: Seq<u8>, m: RegisterMapView)
    requires
        frame[1] == 0x0F,
        multi_write_framed(frame),
        field(frame, 2) as int + field(frame, 4) as int <= 0x10000,
    ensures
        ({
            let start = field(frame, 2);
            let count = field(frame, 4);
            let after = spec_map_after(frame, m).coils;
            &&& forall|i: int|
                0 <= i < count ==> #[trigger] after.contains_key((start + i) as u16) && after[(start + i) as u16]
                    == ((frame[7 + i / 8] >> ((i % 8) as u8)) & 1u8 == 1u8)
            &&& forall|a: u16|
                (a < start || a >= start + count) ==> (#[trigger] after.contains_key(a) == m.coils.contains_key(a))
                    && (m.coils.contains_key(a) ==> after[a] == m.coils[a])
        }),
{
    lemma_coils_after_multi(m.coils, frame, field(frame, 2), field(frame, 4) as int);
}

/// A request with an unsupported function code, addressed to this slave and
/// carrying a good CRC, is answered with exception 0x01 and leaves the
/// register map unchanged.
pub proof fn lemma_unknown_function_refused(frame: Seq<u8>, slave_id: u8, discrete_fc: u8, m: RegisterMapView)
    requires
        frame.len() >= 2,
        !(frame[1] == 0x01 || frame[1] == 0x02 || frame[1] == 0x03 || frame[1] == 0x04 || frame[1]
            == 0x05 || frame[1] == 0x06 || frame[1] == 0x0F || frame[1] == 0x10),
    ensures
        spec_reply(frame, slave_id, discrete_fc, m) == exception_reply(slave_id, frame[1], ILLEGAL_FUNCTION),
        spec_map_after(frame, m) == m,
{
}

proof fn lemma_framed(data: Seq<u8>)
    requires
        data.len() >= 2,
    ensures
        crc_ok(with_crc(data), 4),
{
    lemma_append_then_verify(data);
}

/// Every reply the slave sends is a well-formed RTU frame: whatever the
/// request, the reply passes the CRC check of a master (`crc::verify`).
pub proof fn lemma_replies_pass_crc(frame: Seq<u8>, slave_id: u8, discrete_fc: u8, m: RegisterMapView)
    requires
        frame.len() >= 4,
    ensures
        crc_ok(spec_reply(frame, slave_id, discrete_fc, m), 4),
{
    let fc = frame[1];
    let start = field(frame, 2);
    let count = field(frame, 4);
    assert forall|f: u8, code: u8| crc_ok(#[trigger] exception_reply(slave_id, f, code), 4) by {
        lemma_framed(seq![slave_id, (f | 0x80u8) as u8, code]);
    }
    if fc == 0x01 || fc == 0x02 {
        let f: u8 = if fc == 0x01 {
            0x01
        } else {
            discrete_fc
        };
        if frame.len() >= 8 && count != 0 && count <= 2000 {
            if let Ok(bits) = spec_read_range(m.coils, start, count) {
                lemma_framed(seq![slave_id, f, packed_len(count as nat) as u8] + pack_bits(bits));
            }
        }
    } else if fc == 0x03 || fc == 0x04 {
        let regs = if fc == 0x03 {
            m.holding
        } else {
            m.input
        };
        if frame.len() >= 8 && count != 0 && count <= 125 {
            if let Ok(vals) = spec_read_range(regs, start, count) {
                lemma_framed(seq![slave_id, fc, (2 * count) as u8] + regs_be(vals));
            }
        }
    } else if fc == 0x05 || fc == 0x06 {
        if frame.len() >= 8 {
            lemma_framed(frame.take(6));
        }
    } else if fc == 0x0F || fc == 0x10 {
        lemma_framed(seq![slave_id, fc] + be_bytes(field(frame, 2)) + be_bytes(field(frame, 4)));
    }
}

} // verus!
