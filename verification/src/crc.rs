//! CRC-16 in the Modbus variant (reflected polynomial 0xA001, initial value
//! 0xFFFF) and the checks built on it for RTU frames, whose last two bytes
//! carry the CRC low byte first.

use crate::text::{hex2, push_char, push_hex2};
use vstd::prelude::*;

verus! {

/// One bit step of the reflected CRC-16/Modbus shift register.
pub open spec fn crc_bit_step(c: u16) -> u16 {
    if c & 1 != 0 {
        ((c >> 1u16) ^ 0xA001u16) as u16
    } else {
        (c >> 1u16) as u16
    }
}

/// The register after `n` bit steps starting from `c`.
pub open spec fn crc_bits(c: u16, n: nat) -> u16
    decreases n,
{
    if n == 0 {
        c
    } else {
        crc_bit_step(crc_bits(c, (n - 1) as nat))
    }
}

/// The register after feeding one byte.
pub open spec fn crc_update(c: u16, b: u8) -> u16 {
    crc_bits((c ^ (b as u16)) as u16, 8)
}

/// The register after feeding all of `data`, starting from `init`.
pub open spec fn crc_from(init: u16, data: Seq<u8>) -> u16
    decreases data.len(),
{
    if data.len() == 0 {
        init
    } else {
        crc_update(crc_from(init, data.drop_last()), data.last())
    }
}

/// CRC-16/Modbus of `data`.
pub open spec fn spec_crc16(data: Seq<u8>) -> u16 {
    crc_from(0xFFFFu16, data)
}

/// A 16-bit value read from two bytes, low byte first.
pub open spec fn le16(lo: u8, hi: u8) -> int {
    lo as int + 256 * (hi as int)
}

/// The two bytes of `v`, low byte first.
pub open spec fn le_bytes(v: u16) -> Seq<u8> {
    seq![(v % 256) as u8, (v / 256) as u8]
}

/// A frame whose last two bytes are the CRC of what precedes them, and which
/// holds at least `min_len` bytes.
pub open spec fn crc_ok(frame: Seq<u8>, min_len: nat) -> bool {
    &&& frame.len() >= min_len
    &&& frame.len() >= 2
    &&& spec_crc16(frame.take(frame.len() - 2)) as int == le16(
        frame[frame.len() - 2],
        frame[frame.len() - 1],
    )
}

/// `data` followed by its CRC, low byte first.
pub open spec fn with_crc(data: Seq<u8>) -> Seq<u8> {
    data + le_bytes(spec_crc16(data))
}

fn crc_byte(crc: u16, byte: u8) -> (r: u16)
    ensures
        r == crc_update(crc, byte),
{
    let mut c: u16 = crc ^ (byte as u16);
    let ghost start = c;
    let mut k: u32 = 0;
    while k < 8
        invariant
            k <= 8,
            c == crc_bits(start, k as nat),
            start == (crc ^ (byte as u16)) as u16,
        decreases 8 - k,
    {
        if c & 1 != 0 {
            c = (c >> 1) ^ 0xA001;
        } else {
            c = c >> 1;
        }
        k = k + 1;
    }
    c
}

/// CRC-16/Modbus of a buffer.
pub fn crc16(data: &[u8]) -> (r: u16)
    ensures
        r == spec_crc16(data@),
{
    let mut crc: u16 = 0xFFFF;
    let mut i: usize = 0;
    while i < data.len()
        invariant
            i <= data.len(),
            crc == crc_from(0xFFFFu16, data@.take(i as int)),
        decreases data.len() - i,
    {
        proof {
            assert(data@.take(i + 1).drop_last() =~= data@.take(i as int));
        }
        crc = crc_byte(crc, data[i]);
        i = i + 1;
    }
    proof {
        assert(data@.take(data.len() as int) =~= data@);
    }
    crc
}

fn frame_crc_matches(frame: &[u8]) -> (r: bool)
    requires
        frame@.len() >= 2,
    ensures
        r == (spec_crc16(frame@.take(frame@.len() - 2)) as int == le16(
            frame@[frame@.len() - 2],
            frame@[frame@.len() - 1],
        )),
{
    let n = frame.len();
    let mut body: Vec<u8> = Vec::new();
    let mut i: usize = 0;
    while i < n - 2
        invariant
            n == frame@.len(),
            n >= 2,
            i <= n - 2,
            body@ =~= frame@.take(i as int),
        decreases n - 2 - i,
    {
        body.push(frame[i]);
        i = i + 1;
    }
    let received: u16 = frame[n - 2] as u16 + (frame[n - 1] as u16) * 256;
    crc16(body.as_slice()) == received
}

/// True when `frame` holds at least 3 bytes and its last two bytes are the
/// CRC (low byte first) of the bytes before them.
pub fn verify_crc(frame: &[u8]) -> (r: bool)
    ensures
        r == crc_ok(frame@, 3),
{
    if frame.len() < 3 {
        return false;
    }
    frame_crc_matches(frame)
}

/// True when `frame` holds at least 4 bytes (address, function code and the
/// CRC) and its last two bytes are the CRC of the bytes before them.
pub fn verify(frame: &[u8]) -> (r: bool)
    ensures
        r == crc_ok(frame@, 4),
{
    if frame.len() < 4 {
        return false;
    }
    frame_crc_matches(frame)
}

fn push_le16(frame: &mut Vec<u8>, v: u16)
    ensures
        final(frame)@ == old(frame)@ + le_bytes(v),
{
    let lo: u8 = (v % 256) as u8;
    let hi: u8 = (v / 256) as u8;
    frame.push(lo);
    frame.push(hi);
    proof {
        assert(final(frame)@ =~= old(frame)@ + le_bytes(v));
    }
}

/// Appends the CRC of the frame, low byte first.
pub fn append_crc(frame: &mut Vec<u8>)
    ensures
        final(frame)@ == with_crc(old(frame)@),
{
    let crc = crc16(frame.as_slice());
    push_le16(frame, crc);
}

/// Appends the CRC of the frame, low byte first.
pub fn append(frame: &mut Vec<u8>)
    ensures
        final(frame)@ == with_crc(old(frame)@),
{
    append_crc(frame)
}

/// True when the frame is addressed to `slave_id` or is a broadcast
/// (address 0); false on an empty frame.
pub fn is_for_us(frame: &[u8], slave_id: u8) -> (r: bool)
    ensures
        r == (frame@.len() > 0 && (frame@[0] == slave_id || frame@[0] == 0)),
{
    if frame.len() == 0 {
        false
    } else {
        frame[0] == slave_id || frame[0] == 0
    }
}

/// A frame with its CRC appended passes the check: what `append_crc` writes,
/// `verify_crc` accepts, for every payload of at least one byte (and `verify`
/// for every payload of at least two).
pub proof fn lemma_append_then_verify(data: Seq<u8>)
    ensures
        data.len() >= 1 ==> crc_ok(with_crc(data), 3),
        data.len() >= 2 ==> crc_ok(with_crc(data), 4),
        with_crc(data).len() == data.len() + 2,
{
    let f = with_crc(data);
    assert(f.take(f.len() - 2) =~= data);
    let c = spec_crc16(data);
    assert(f[f.len() - 2] == (c % 256) as u8);
    assert(f[f.len() - 1] == (c / 256) as u8);
}

/// Feeding a register its own value, low byte first, clears it.
proof fn lemma_own_value_clears(c: u16)
    ensures
        crc_update(crc_update(c, (c % 256) as u8), (c / 256) as u8) == 0,
{
    reveal_with_fuel(crc_bits, 9);
    let lo = (c % 256) as u8;
    let hi = (c / 256) as u8;
    let a0 = (c ^ (lo as u16)) as u16;
    let a1 = crc_bit_step(a0);
    let a2 = crc_bit_step(a1);
    let a3 = crc_bit_step(a2);
    let a4 = crc_bit_step(a3);
    let a5 = crc_bit_step(a4);
    let a6 = crc_bit_step(a5);
    let a7 = crc_bit_step(a6);
    let a8 = crc_bit_step(a7);
    assert(crc_update(c, lo) == a8);
    let b0 = (a8 ^ (hi as u16)) as u16;
    let b1 = crc_bit_step(b0);
    let b2 = crc_bit_step(b1);
    let b3 = crc_bit_step(b2);
    let b4 = crc_bit_step(b3);
    let b5 = crc_bit_step(b4);
    let b6 = crc_bit_step(b5);
    let b7 = crc_bit_step(b6);
    let b8 = crc_bit_step(b7);
    assert(crc_update(a8, hi) == b8);
    assert(b8 == 0) by (bit_vector)
        requires
            lo == (c % 256) as u8,
            hi == (c / 256) as u8,
            a0 == (c ^ (lo as u16)) as u16,
            a1 == (if a0 & 1 != 0 { ((a0 >> 1u16) ^ 0xA001u16) as u16 } else { (a0 >> 1u16) as u16 }),
            a2 == (if a1 & 1 != 0 { ((a1 >> 1u16) ^ 0xA001u16) as u16 } else { (a1 >> 1u16) as u16 }),
            a3 == (if a2 & 1 != 0 { ((a2 >> 1u16) ^ 0xA001u16) as u16 } else { (a2 >> 1u16) as u16 }),
            a4 == (if a3 & 1 != 0 { ((a3 >> 1u16) ^ 0xA001u16) as u16 } else { (a3 >> 1u16) as u16 }),
            a5 == (if a4 & 1 != 0 { ((a4 >> 1u16) ^ 0xA001u16) as u16 } else { (a4 >> 1u16) as u16 }),
            a6 == (if a5 & 1 != 0 { ((a5 >> 1u16) ^ 0xA001u16) as u16 } else { (a5 >> 1u16) as u16 }),
            a7 == (if a6 & 1 != 0 { ((a6 >> 1u16) ^ 0xA001u16) as u16 } else { (a6 >> 1u16) as u16 }),
            a8 == (if a7 & 1 != 0 { ((a7 >> 1u16) ^ 0xA001u16) as u16 } else { (a7 >> 1u16) as u16 }),
            b0 == (a8 ^ (hi as u16)) as u16,
            b1 == (if b0 & 1 != 0 { ((b0 >> 1u16) ^ 0xA001u16) as u16 } else { (b0 >> 1u16) as u16 }),
            b2 == (if b1 & 1 != 0 { ((b1 >> 1u16) ^ 0xA001u16) as u16 } else { (b1 >> 1u16) as u16 }),
            b3 == (if b2 & 1 != 0 { ((b2 >> 1u16) ^ 0xA001u16) as u16 } else { (b2 >> 1u16) as u16 }),
            b4 == (if b3 & 1 != 0 { ((b3 >> 1u16) ^ 0xA001u16) as u16 } else { (b3 >> 1u16) as u16 }),
            b5 == (if b4 & 1 != 0 { ((b4 >> 1u16) ^ 0xA001u16) as u16 } else { (b4 >> 1u16) as u16 }),
            b6 == (if b5 & 1 != 0 { ((b5 >> 1u16) ^ 0xA001u16) as u16 } else { (b5 >> 1u16) as u16 }),
            b7 == (if b6 & 1 != 0 { ((b6 >> 1u16) ^ 0xA001u16) as u16 } else { (b6 >> 1u16) as u16 }),
            b8 == (if b7 & 1 != 0 { ((b7 >> 1u16) ^ 0xA001u16) as u16 } else { (b7 >> 1u16) as u16 }),
    ;
}

/// A frame followed by its own CRC, low byte first, has CRC 0: the CRC of
/// `with_crc(data)` is zero for every `data`.
pub proof fn lemma_crc_of_framed_is_zero(data: Seq<u8>)
    ensures
        spec_crc16(with_crc(data)) == 0,
{
    let c = spec_crc16(data);
    let lo = (c % 256) as u8;
    let hi = (c / 256) as u8;
    let f = with_crc(data);
    assert(f.drop_last() =~= data.push(lo));
    assert(f.last() == hi);
    assert(data.push(lo).drop_last() =~= data);
    assert(data.push(lo).last() == lo);
    assert(crc_from(0xFFFFu16, data.push(lo)) == crc_update(c, lo));
    assert(crc_from(0xFFFFu16, f) == crc_update(crc_update(c, lo), hi));
    lemma_own_value_clears(c);
}

/// CRC of a six-byte request `[slave, fc, a, b, c, d]`, as the pair of
/// bytes that follows it on the wire (low byte, high byte).
pub fn frame_crc(slave: u8, fc: u8, a: u8, b: u8, c: u8, d: u8) -> (r: (u8, u8))
    ensures
        seq![r.0, r.1] == le_bytes(spec_crc16(seq![slave, fc, a, b, c, d])),
{
    let mut buf: Vec<u8> = Vec::new();
    buf.push(slave);
    buf.push(fc);
    buf.push(a);
    buf.push(b);
    buf.push(c);
    buf.push(d);
    proof {
        assert(buf@ =~= seq![slave, fc, a, b, c, d]);
    }
    let crc = crc16(buf.as_slice());
    let r: (u8, u8) = ((crc % 256) as u8, (crc / 256) as u8);
    proof {
        assert(seq![r.0, r.1] =~= le_bytes(spec_crc16(seq![slave, fc, a, b, c, d])));
    }
    r
}

/// Bytes as upper-case hexadecimal pairs separated by single spaces.
pub open spec fn hex_join(bytes: Seq<u8>) -> Seq<char>
    decreases bytes.len(),
{
    if bytes.len() == 0 {
        Seq::empty()
    } else if bytes.len() == 1 {
        hex2(bytes[0])
    } else {
        hex_join(bytes.drop_last()) + seq![' '] + hex2(bytes.last())
    }
}

/// Bytes as upper-case hexadecimal pairs separated by single spaces, for
/// frame logs ("01 03 00 00 00 01 84 0A").
pub fn to_hex(bytes: &[u8]) -> (r: String)
    ensures
        r@ == hex_join(bytes@),
{
    let mut s = String::new();
    let mut i: usize = 0;
    while i < bytes.len()
        invariant
            i <= bytes@.len(),
            s@ == hex_join(bytes@.take(i as int)),
        decreases bytes@.len() - i,
    {
        proof {
            assert(bytes@.take(i + 1).drop_last() =~= bytes@.take(i as int));
        }
        if i > 0 {
            push_char(&mut s, ' ');
        }
        push_hex2(&mut s, bytes[i]);
        proof {
            if i == 0 {
                assert(s@ =~= hex_join(bytes@.take(1)));
            } else {
                assert(s@ =~= hex_join(bytes@.take(i + 1)));
            }
        }
        i = i + 1;
    }
    proof {
        assert(bytes@.take(bytes@.len() as int) =~= bytes@);
    }
    s
}

/// Bytes as upper-case hexadecimal pairs separated by single spaces.
pub fn hex(b: &[u8]) -> (r: String)
    ensures
        r@ == hex_join(b@),
{
    to_hex(b)
}

/// A hex dump of `n` bytes takes `3n - 1` characters.
pub proof fn lemma_hex_join_len(bytes: Seq<u8>)
    ensures
        bytes.len() > 0 ==> hex_join(bytes).len() == 3 * bytes.len() - 1,
        bytes.len() == 0 ==> hex_join(bytes).len() == 0,
    decreases bytes.len(),
{
    if bytes.len() > 1 {
        lemma_hex_join_len(bytes.drop_last());
    }
}

} // verus!
