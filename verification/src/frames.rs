//! Master side of Modbus RTU: building request frames and PDUs, and checking
//! and taking apart the replies.

use crate::bits::{pack_bits, packed_len, push_packed_bits};
use crate::crc::{append, crc_ok, verify, with_crc};
use crate::text::{dec, hex2, push_dec, push_hex2, push_str, string_of};
use crate::wire::{be_bytes, field, push_be16, push_regs_be, read_be16, regs_be};
use vstd::prelude::*;

verus! {

pub const FC_READ_COILS: u8 = 0x01;
pub const FC_READ_DISCRETE_INPUTS: u8 = 0x02;
pub const FC_READ_HOLDING: u8 = 0x03;
pub const FC_READ_INPUT: u8 = 0x04;
pub const FC_WRITE_SINGLE_COIL: u8 = 0x05;
pub const FC_WRITE_SINGLE_REG: u8 = 0x06;
pub const FC_WRITE_MULTI_COILS: u8 = 0x0F;
pub const FC_WRITE_MULTI_REGS: u8 = 0x10;

/// The bits of the single-precision float held in a register pair, high
/// half first (the order the firmware writes them in).
pub fn float_bits_from_regs(hi: u16, lo: u16) -> (r: u32)
    ensures
        r == hi as int * 0x10000 + lo as int,
{
    (hi as u32) * 0x10000 + (lo as u32)
}

/// Largest RTU frame.
pub const MAX_FRAME: usize = 256;

/// Modbus-level errors seen by a master.
#[derive(Debug, Clone, PartialEq)]
pub enum ModbusError {
    Timeout,
    BadCrc,
    IllegalFunction,
    IllegalAddress,
    IllegalValue,
    ServerFailure,
    Ack,
    Busy,
    Nack,
    GatewayNoRoute,
    GatewayTargetFailed,
    Unknown(u8),
    Io(String),
}

/// The error for a Modbus exception code.
pub open spec fn spec_exception_error(code: u8) -> ModbusError {
    if code == 0x01 {
        ModbusError::IllegalFunction
    } else if code == 0x02 {
        ModbusError::IllegalAddress
    } else if code == 0x03 {
        ModbusError::IllegalValue
    } else if code == 0x04 {
        ModbusError::ServerFailure
    } else if code == 0x05 {
        ModbusError::Ack
    } else if code == 0x06 {
        ModbusError::Busy
    } else if code == 0x07 {
        ModbusError::Nack
    } else if code == 0x0A {
        ModbusError::GatewayNoRoute
    } else if code == 0x0B {
        ModbusError::GatewayTargetFailed
    } else {
        ModbusError::Unknown(code)
    }
}

/// The error for a Modbus exception code.
pub fn exception_to_error(code: u8) -> (r: ModbusError)
    ensures
        r == spec_exception_error(code),
{
    match code {
        0x01 => ModbusError::IllegalFunction,
        0x02 => ModbusError::IllegalAddress,
        0x03 => ModbusError::IllegalValue,
        0x04 => ModbusError::ServerFailure,
        0x05 => ModbusError::Ack,
        0x06 => ModbusError::Busy,
        0x07 => ModbusError::Nack,
        0x0A => ModbusError::GatewayNoRoute,
        0x0B => ModbusError::GatewayTargetFailed,
        other => ModbusError::Unknown(other),
    }
}

/// The human-readable text of an error (without the `Io` detail).
pub open spec fn error_text(e: ModbusError) -> Seq<char> {
    match e {
        ModbusError::Timeout => "timeout (no response)"@,
        ModbusError::BadCrc => "bad CRC"@,
        ModbusError::IllegalFunction => "illegal function (0x01)"@,
        ModbusError::IllegalAddress => "illegal data address (0x02)"@,
        ModbusError::IllegalValue => "illegal data value (0x03)"@,
        ModbusError::ServerFailure => "server device failure (0x04)"@,
        ModbusError::Ack => "acknowledge (0x05)"@,
        ModbusError::Busy => "server busy (0x06)"@,
        ModbusError::Nack => "negative acknowledge (0x07)"@,
        ModbusError::GatewayNoRoute => "gateway no route (0x0A)"@,
        ModbusError::GatewayTargetFailed => "gateway target failed (0x0B)"@,
        ModbusError::Unknown(c) => "exception 0x"@ + hex2(c),
        ModbusError::Io(s) => "IO: "@ + s@,
    }
}

impl ModbusError {
    /// The human-readable text of the error.
    pub fn message(&self) -> (r: String)
        ensures
            r@ == error_text(*self),
    {
        match self {
            ModbusError::Timeout => string_of("timeout (no response)"),
            ModbusError::BadCrc => string_of("bad CRC"),
            ModbusError::IllegalFunction => string_of("illegal function (0x01)"),
            ModbusError::IllegalAddress => string_of("illegal data address (0x02)"),
            ModbusError::IllegalValue => string_of("illegal data value (0x03)"),
            ModbusError::ServerFailure => string_of("server device failure (0x04)"),
            ModbusError::Ack => string_of("acknowledge (0x05)"),
            ModbusError::Busy => string_of("server busy (0x06)"),
            ModbusError::Nack => string_of("negative acknowledge (0x07)"),
            ModbusError::GatewayNoRoute => string_of("gateway no route (0x0A)"),
            ModbusError::GatewayTargetFailed => string_of("gateway target failed (0x0B)"),
            ModbusError::Unknown(c) => {
                let mut s = string_of("exception 0x");
                push_hex2(&mut s, *c);
                s
            },
            ModbusError::Io(e) => {
                let mut s = string_of("IO: ");
                push_str(&mut s, e.as_str());
                s
            },
        }
    }
}

/// A request frame: `[slave, fc, ...pdu]` followed by its CRC.
pub fn build_request(slave_id: u8, fc: u8, pdu: &[u8]) -> (r: Vec<u8>)
    ensures
        r@ == with_crc(seq![slave_id, fc] + pdu@),
{
    let mut frame: Vec<u8> = Vec::new();
    frame.push(slave_id);
    frame.push(fc);
    let mut i: usize = 0;
    while i < pdu.len()
        invariant
            i <= pdu@.len(),
            frame@ =~= seq![slave_id, fc] + pdu@.take(i as int),
        decreases pdu@.len() - i,
    {
        frame.push(pdu[i]);
        i = i + 1;
    }
    proof {
        assert(pdu@.take(pdu@.len() as int) =~= pdu@);
    }
    append(&mut frame);
    frame
}

/// The PDU part of a good reply: present when the frame has at least 5
/// bytes, a good CRC, the expected slave address and exactly the expected
/// function code; it is what lies between the function code and the CRC.
pub open spec fn response_payload(frame: Seq<u8>, slave_id: u8, fc: u8) -> Option<Seq<u8>> {
    if frame.len() >= 5 && crc_ok(frame, 4) && frame[0] == slave_id && frame[1] != (fc | 0x80u8)
        && frame[1] == fc {
        Some(frame.subrange(2, frame.len() - 2))
    } else {
        None
    }
}

/// Checks a reply and returns its PDU (without address, function code and
/// CRC). Errors, in the order they are checked: `Timeout` under 5 bytes,
/// `BadCrc`, `Io` for another slave's address, the exception's error when
/// the function code is `fc | 0x80`, `Io` for another function code.
pub fn parse_response(frame: &[u8], slave_id: u8, fc: u8) -> (r: Result<Vec<u8>, ModbusError>)
    ensures
        frame@.len() < 5 ==> r matches Err(ModbusError::Timeout),
        frame@.len() >= 5 && !crc_ok(frame@, 4) ==> r matches Err(ModbusError::BadCrc),
        frame@.len() >= 5 && crc_ok(frame@, 4) && frame@[0] != slave_id ==> (r matches Err(
            ModbusError::Io(m),
        ) && m@ == "unexpected slave 0x"@ + hex2(frame@[0])),
        frame@.len() >= 5 && crc_ok(frame@, 4) && frame@[0] == slave_id && frame@[1] == (fc
            | 0x80u8) ==> r == Err::<Vec<u8>, ModbusError>(spec_exception_error(frame@[2])),
        frame@.len() >= 5 && crc_ok(frame@, 4) && frame@[0] == slave_id && frame@[1] != (fc
            | 0x80u8) && frame@[1] != fc ==> (r matches Err(ModbusError::Io(m)) && m@
            == "unexpected FC 0x"@ + hex2(frame@[1]) + " (wanted 0x"@ + hex2(fc) + ")"@),
        r is Ok <==> response_payload(frame@, slave_id, fc) is Some,
        r matches Ok(v) ==> response_payload(frame@, slave_id, fc) == Some(v@),
{
    if frame.len() < 5 {
        return Err(ModbusError::Timeout);
    }
    if !verify(frame) {
        return Err(ModbusError::BadCrc);
    }
    if frame[0] != slave_id {
        let mut m = string_of("unexpected slave 0x");
        push_hex2(&mut m, frame[0]);
        return Err(ModbusError::Io(m));
    }
    let response_fc = frame[1];
    if response_fc == fc | 0x80 {
        return Err(exception_to_error(frame[2]));
    }
    if response_fc != fc {
        let mut m = string_of("unexpected FC 0x");
        push_hex2(&mut m, response_fc);
        push_str(&mut m, " (wanted 0x");
        push_hex2(&mut m, fc);
        push_str(&mut m, ")");
        return Err(ModbusError::Io(m));
    }
    let mut pdu: Vec<u8> = Vec::new();
    let end = frame.len() - 2;
    let mut i: usize = 2;
    while i < end
        invariant
            2 <= i <= end,
            end == frame@.len() - 2,
            pdu@ =~= frame@.subrange(2, i as int),
        decreases end - i,
    {
        pdu.push(frame[i]);
        i = i + 1;
    }
    Ok(pdu)
}

/// PDU of a read request: start and count, each high byte first.
pub fn read_pdu(start: u16, count: u16) -> (r: Vec<u8>)
    ensures
        r@ == be_bytes(start) + be_bytes(count),
{
    let mut pdu: Vec<u8> = Vec::new();
    push_be16(&mut pdu, start);
    push_be16(&mut pdu, count);
    proof {
        assert(pdu@ =~= be_bytes(start) + be_bytes(count));
    }
    pdu
}

/// The registers of a read-registers reply PDU `[byte_count, ...data]`:
/// present when the byte count is twice the expected number of registers and
/// the data is all there.
pub open spec fn spec_read_registers(pdu: Seq<u8>, expected: nat) -> Option<Seq<u16>> {
    if pdu.len() >= 1 && pdu[0] as int == 2 * expected && pdu.len() >= 1 + pdu[0] as int {
        Some(Seq::new(expected, |i: int| field(pdu, 1 + 2 * i)))
    } else {
        None
    }
}

/// Takes apart a read-registers reply PDU `[byte_count, ...data]`.
pub fn parse_read_registers(pdu: &[u8], expected: usize) -> (r: Result<Vec<u16>, ModbusError>)
    requires
        2 * expected <= usize::MAX,
    ensures
        pdu@.len() < 1 ==> (r matches Err(ModbusError::Io(m)) && m@ == "empty read response"@),
        pdu@.len() >= 1 && spec_read_registers(pdu@, expected as nat) is None ==> (r matches Err(
            ModbusError::Io(m),
        ) && m@ == "bad read response: byte_count="@ + dec(pdu@[0] as nat) + ", data="@ + dec(
            (pdu@.len() - 1) as nat,
        )),
        r is Ok <==> spec_read_registers(pdu@, expected as nat) is Some,
        r matches Ok(v) ==> spec_read_registers(pdu@, expected as nat) == Some(v@),
{
    if pdu.len() < 1 {
        return Err(ModbusError::Io(string_of("empty read response")));
    }
    let byte_count = pdu[0] as usize;
    if byte_count != expected * 2 || pdu.len() < 1 + byte_count {
        let mut m = string_of("bad read response: byte_count=");
        push_dec(&mut m, byte_count as u64);
        push_str(&mut m, ", data=");
        push_dec(&mut m, (pdu.len() - 1) as u64);
        return Err(ModbusError::Io(m));
    }
    let mut regs: Vec<u16> = Vec::new();
    let mut i: usize = 0;
    while i < expected
        invariant
            i <= expected,
            byte_count == 2 * expected,
            pdu@.len() >= 1 + byte_count,
            regs@ =~= Seq::new(i as nat, |j: int| field(pdu@, 1 + 2 * j)),
        decreases expected - i,
    {
        regs.push(read_be16(pdu, 1 + 2 * i));
        i = i + 1;
    }
    Ok(regs)
}

/// The bits of a read-bits reply PDU `[byte_count, ...bytes]`: present when
/// the data is all there; the first `expected` bits, or fewer when the reply
/// carries fewer.
pub open spec fn spec_read_bits(pdu: Seq<u8>, expected: nat) -> Option<Seq<bool>> {
    if pdu.len() >= 1 && pdu.len() >= 1 + pdu[0] as int {
        let n = if expected < 8 * pdu[0] { expected } else { (8 * pdu[0]) as nat };
        Some(Seq::new(n, |i: int| (pdu[1 + i / 8] >> ((i % 8) as u8)) & 1u8 == 1u8))
    } else {
        None
    }
}

/// Takes apart a read-bits reply PDU `[byte_count, ...bytes]`.
pub fn parse_read_bits(pdu: &[u8], expected: usize) -> (r: Result<Vec<bool>, ModbusError>)
    ensures
        pdu@.len() < 1 ==> (r matches Err(ModbusError::Io(m)) && m@ == "empty bits response"@),
        pdu@.len() >= 1 && pdu@.len() < 1 + pdu@[0] ==> (r matches Err(ModbusError::Io(m)) && m@
            == "bits response too short"@),
        r is Ok <==> spec_read_bits(pdu@, expected as nat) is Some,
        r matches Ok(v) ==> spec_read_bits(pdu@, expected as nat) == Some(v@),
{
    if pdu.len() < 1 {
        return Err(ModbusError::Io(string_of("empty bits response")));
    }
    let byte_count = pdu[0] as usize;
    if pdu.len() < 1 + byte_count {
        return Err(ModbusError::Io(string_of("bits response too short")));
    }
    let ghost n: nat = if expected < 8 * byte_count {
        expected as nat
    } else {
        (8 * byte_count) as nat
    };
    let ghost want = Seq::new(n, |i: int| (pdu@[1 + i / 8] >> ((i % 8) as u8)) & 1u8 == 1u8);
    let mut bits: Vec<bool> = Vec::new();
    let mut j: usize = 0;
    while j < byte_count
        invariant
            j <= byte_count,
            byte_count == pdu@[0],
            pdu@.len() >= 1 + byte_count,
            n == (if expected < 8 * byte_count { expected as nat } else { (8 * byte_count) as nat }),
            want == Seq::new(n, |i: int| (pdu@[1 + i / 8] >> ((i % 8) as u8)) & 1u8 == 1u8),
            bits@.len() == (if expected < 8 * j { expected as nat } else { (8 * j) as nat }),
            bits@ =~= want.take(bits@.len() as int),
        decreases byte_count - j,
    {
        let byte = pdu[1 + j];
        let mut bit: u8 = 0;
        while bit < 8
            invariant
                bit <= 8,
                j < byte_count,
                byte == pdu@[1 + j],
                byte_count == pdu@[0],
                pdu@.len() >= 1 + byte_count,
                n == (if expected < 8 * byte_count { expected as nat } else { (8
                    * byte_count) as nat }),
                want == Seq::new(n, |i: int| (pdu@[1 + i / 8] >> ((i % 8) as u8)) & 1u8 == 1u8),
                bits@.len() == (if expected < 8 * j + bit { expected as nat } else { (8 * j
                    + bit) as nat }),
                bits@ =~= want.take(bits@.len() as int),
            ensures
                bits@.len() == (if expected < 8 * j + 8 { expected as nat } else { (8 * j
                    + 8) as nat }),
                bits@ =~= want.take(bits@.len() as int),
            decreases 8 - bit,
        {
            if bits.len() >= expected {
                break;
            }
            let ghost k = bits@.len() as int;
            proof {
                assert(k == 8 * j + bit);
                assert(k / 8 == j as int && k % 8 == bit as int) by (nonlinear_arith)
                    requires
                        k == 8 * j + bit,
                        bit < 8,
                ;
            }
            bits.push((byte >> bit) & 1 == 1);
            bit = bit + 1;
        }
        j = j + 1;
    }
    proof {
        assert(bits@.len() == n);
    }
    Ok(bits)
}

/// PDU of a write-single request: address and value, each high byte first.
pub fn write_single_pdu(addr: u16, value: u16) -> (r: Vec<u8>)
    ensures
        r@ == be_bytes(addr) + be_bytes(value),
{
    let mut pdu: Vec<u8> = Vec::new();
    push_be16(&mut pdu, addr);
    push_be16(&mut pdu, value);
    proof {
        assert(pdu@ =~= be_bytes(addr) + be_bytes(value));
    }
    pdu
}

/// PDU of a write-multiple-coils request: start, quantity, byte count, then
/// the coils packed eight to a byte (quantity and byte count truncated to
/// their field widths).
pub fn write_multi_coils_pdu(start: u16, values: &[bool]) -> (r: Vec<u8>)
    ensures
        r@ == be_bytes(start) + be_bytes(values@.len() as u16) + seq![packed_len(
            values@.len(),
        ) as u8] + pack_bits(values@),
{
    let n = values.len();
    let byte_count: usize = n / 8 + if n % 8 == 0 { 0 } else { 1 };
    let mut pdu: Vec<u8> = Vec::new();
    push_be16(&mut pdu, start);
    push_be16(&mut pdu, n as u16);
    pdu.push(byte_count as u8);
    push_packed_bits(&mut pdu, values);
    proof {
        assert(pdu@ =~= be_bytes(start) + be_bytes(values@.len() as u16) + seq![packed_len(
            values@.len(),
        ) as u8] + pack_bits(values@));
    }
    pdu
}

/// PDU of a write-multiple-registers request: start, quantity, byte count,
/// then the registers high byte first (quantity and byte count truncated to
/// their field widths).
pub fn write_multi_regs_pdu(start: u16, values: &[u16]) -> (r: Vec<u8>)
    ensures
        r@ == be_bytes(start) + be_bytes(values@.len() as u16) + seq![(2 * values@.len()) as u8]
            + regs_be(values@),
{
    let n = values.len();
    let mut pdu: Vec<u8> = Vec::new();
    push_be16(&mut pdu, start);
    push_be16(&mut pdu, n as u16);
    let bc: u8 = ((n % 128) * 2) as u8;
    proof {
        assert(((n % 128) * 2) as u8 == (2 * n) as u8) by (bit_vector);
    }
    pdu.push(bc);
    push_regs_be(&mut pdu, values);
    proof {
        assert(pdu@ =~= be_bytes(start) + be_bytes(values@.len() as u16) + seq![(2
            * values@.len()) as u8] + regs_be(values@));
    }
    pdu
}

/// A request built by `build_request` comes back out of `parse_response`
/// unchanged when it is answered by an echo: for a function code without
/// the exception bit and a PDU of at least one byte, the reply frame
/// `with_crc([slave, fc] + pdu)` yields exactly `pdu`.
pub proof fn lemma_request_roundtrip(slave_id: u8, fc: u8, pdu: Seq<u8>)
    requires
        fc < 0x80,
        pdu.len() >= 1,
    ensures
        response_payload(with_crc(seq![slave_id, fc] + pdu), slave_id, fc) == Some(pdu),
{
    let body = seq![slave_id, fc] + pdu;
    crate::crc::lemma_append_then_verify(body);
    let f = with_crc(body);
    assert(f[0] == slave_id);
    assert(f[1] == fc);
    assert((fc | 0x80u8) != fc) by (bit_vector)
        requires
            fc < 0x80,
    ;
    assert(f.subrange(2, f.len() - 2) =~= pdu);
}

/// What a slave packs into a register reply, the master reads back: the
/// reply PDU `[2n] + registers` yields exactly the `n` registers.
pub proof fn lemma_registers_roundtrip(vals: Seq<u16>)
    requires
        vals.len() <= 127,
    ensures
        spec_read_registers(seq![(2 * vals.len()) as u8] + regs_be(vals), vals.len()) == Some(vals),
{
    let pdu = seq![(2 * vals.len()) as u8] + regs_be(vals);
    crate::wire::lemma_regs_be_len(vals);
    let got = Seq::new(vals.len(), |i: int| field(pdu, 1 + 2 * i));
    assert forall|i: int| 0 <= i < vals.len() implies got[i] == vals[i] by {
        crate::wire::lemma_regs_be_index(vals, i);
        assert(pdu[1 + 2 * i] == regs_be(vals)[2 * i]);
        assert(pdu[2 + 2 * i] == regs_be(vals)[2 * i + 1]);
    }
    assert(got =~= vals);
}

/// What a slave packs into a bit reply, the master reads back: the reply PDU
/// `[byte_count] + packed bits` yields exactly the bits.
pub proof fn lemma_bits_roundtrip(bits: Seq<bool>)
    requires
        bits.len() <= 2000,
    ensures
        spec_read_bits(seq![packed_len(bits.len()) as u8] + pack_bits(bits), bits.len()) == Some(
            bits,
        ),
{
    let pdu = seq![packed_len(bits.len()) as u8] + pack_bits(bits);
    let bc = packed_len(bits.len());
    assert(bits.len() <= 8 * bc);
    let got = Seq::new(bits.len(), |i: int| (pdu[1 + i / 8] >> ((i % 8) as u8)) & 1u8 == 1u8);
    assert forall|i: int| 0 <= i < bits.len() implies got[i] == bits[i] by {
        let q = i / 8;
        let k = i % 8;
        assert(q * 8 + k == i);
        assert(q < bc);
        crate::bits::lemma_pack_byte_bit(bits, q, k);
    }
    assert(got =~= bits);
}

} // verus!
