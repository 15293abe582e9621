//! Packing of bit values (coils, discrete inputs) into bytes as Modbus does
//! it: bit `k` of byte `i` carries value `8 * i + k`; unused high bits of the
//! last byte are zero.

use vstd::prelude::*;

verus! {

/// The contribution of value `8 * i + k` to byte `i`.
pub open spec fn bit_term(bits: Seq<bool>, i: int, k: int) -> u8 {
    if i * 8 + k < bits.len() && bits[i * 8 + k] {
        (1u8 << (k as u8)) as u8
    } else {
        0u8
    }
}

/// Byte `i` built from its first `k` bits.
pub open spec fn pack_byte(bits: Seq<bool>, i: int, k: nat) -> u8
    decreases k,
{
    if k == 0 {
        0u8
    } else {
        (pack_byte(bits, i, (k - 1) as nat) | bit_term(bits, i, k - 1)) as u8
    }
}

/// Number of bytes needed for `n` bits.
pub open spec fn packed_len(n: nat) -> nat {
    (n + 7) / 8
}

/// The bytes carrying `bits`.
pub open spec fn pack_bits(bits: Seq<bool>) -> Seq<u8> {
    Seq::new(packed_len(bits.len()), |i: int| pack_byte(bits, i, 8))
}

/// Appends the bytes carrying `bits`.
pub fn push_packed_bits(out: &mut Vec<u8>, bits: &[bool])
    ensures
        final(out)@ == old(out)@ + pack_bits(bits@),
{
    let byte_count: usize = bits.len() / 8 + if bits.len() % 8 == 0 { 0 } else { 1 };
    assert(byte_count == packed_len(bits@.len()));
    let mut i: usize = 0;
    while i < byte_count
        invariant
            i <= byte_count,
            byte_count == packed_len(bits@.len()),
            bits@.len() <= usize::MAX,
            out@ == old(out)@ + pack_bits(bits@).take(i as int),
        decreases byte_count - i,
    {
        let mut byte: u8 = 0;
        let mut bit: u8 = 0;
        assert(i * 8 <= bits@.len()) by (nonlinear_arith)
            requires
                i < byte_count,
                byte_count == (bits@.len() + 7) / 8,
        ;
        while bit < 8
            invariant
                bit <= 8,
                i < byte_count,
                byte_count == packed_len(bits@.len()),
                byte == pack_byte(bits@, i as int, bit as nat),
                i * 8 <= bits@.len(),
                bits@.len() <= usize::MAX,
            decreases 8 - bit,
        {
            let base: usize = i * 8;
            let ghost prev = byte;
            if (bit as usize) < bits.len() - base && bits[base + bit as usize] {
                byte = byte | (1u8 << bit);
            } else {
                assert(prev | 0u8 == prev) by (bit_vector);
            }
            assert(byte == pack_byte(bits@, i as int, (bit + 1) as nat));
            bit = bit + 1;
        }
        out.push(byte);
        proof {
            assert(pack_bits(bits@).take(i + 1) =~= pack_bits(bits@).take(i as int).push(byte));
        }
        i = i + 1;
    }
    proof {
        assert(pack_bits(bits@).take(byte_count as int) =~= pack_bits(bits@));
    }
}

proof fn lemma_byte_bits(
    b0: bool,
    b1: bool,
    b2: bool,
    b3: bool,
    b4: bool,
    b5: bool,
    b6: bool,
    b7: bool,
    x: u8,
)
    requires
        x == ((((((((0u8 | (if b0 { 1u8 } else { 0u8 })) | (if b1 { 2u8 } else { 0u8 })) | (if b2 {
            4u8
        } else {
            0u8
        })) | (if b3 { 8u8 } else { 0u8 })) | (if b4 { 16u8 } else { 0u8 })) | (if b5 {
            32u8
        } else {
            0u8
        })) | (if b6 { 64u8 } else { 0u8 })) | (if b7 { 128u8 } else { 0u8 })),
    ensures
        ((x >> 0u8) & 1u8 == 1u8) == b0,
        ((x >> 1u8) & 1u8 == 1u8) == b1,
        ((x >> 2u8) & 1u8 == 1u8) == b2,
        ((x >> 3u8) & 1u8 == 1u8) == b3,
        ((x >> 4u8) & 1u8 == 1u8) == b4,
        ((x >> 5u8) & 1u8 == 1u8) == b5,
        ((x >> 6u8) & 1u8 == 1u8) == b6,
        ((x >> 7u8) & 1u8 == 1u8) == b7,
{
    assert(((x >> 0u8) & 1u8 == 1u8) == b0 && ((x >> 1u8) & 1u8 == 1u8) == b1 && ((x >> 2u8) & 1u8
        == 1u8) == b2 && ((x >> 3u8) & 1u8 == 1u8) == b3 && ((x >> 4u8) & 1u8 == 1u8) == b4 && ((x
        >> 5u8) & 1u8 == 1u8) == b5 && ((x >> 6u8) & 1u8 == 1u8) == b6 && ((x >> 7u8) & 1u8 == 1u8)
        == b7) by (bit_vector)
        requires
            x == ((((((((0u8 | (if b0 { 1u8 } else { 0u8 })) | (if b1 { 2u8 } else { 0u8 })) | (
            if b2 {
                4u8
            } else {
                0u8
            })) | (if b3 { 8u8 } else { 0u8 })) | (if b4 { 16u8 } else { 0u8 })) | (if b5 {
                32u8
            } else {
                0u8
            })) | (if b6 { 64u8 } else { 0u8 })) | (if b7 { 128u8 } else { 0u8 })),
    ;
}

/// Bit `k` of packed byte `i` is value `8 * i + k` (false past the end).
pub proof fn lemma_pack_byte_bit(bits: Seq<bool>, i: int, k: int)
    requires
        0 <= k < 8,
        0 <= i,
    ensures
        ((pack_byte(bits, i, 8) >> (k as u8)) & 1u8 == 1u8) == (i * 8 + k < bits.len() && bits[i
            * 8 + k]),
{
    let b = |j: int| i * 8 + j < bits.len() && bits[i * 8 + j];
    assert(1u8 << 0u8 == 1u8) by (bit_vector);
    assert(1u8 << 1u8 == 2u8) by (bit_vector);
    assert(1u8 << 2u8 == 4u8) by (bit_vector);
    assert(1u8 << 3u8 == 8u8) by (bit_vector);
    assert(1u8 << 4u8 == 16u8) by (bit_vector);
    assert(1u8 << 5u8 == 32u8) by (bit_vector);
    assert(1u8 << 6u8 == 64u8) by (bit_vector);
    assert(1u8 << 7u8 == 128u8) by (bit_vector);
    reveal_with_fuel(pack_byte, 9);
    lemma_byte_bits(b(0), b(1), b(2), b(3), b(4), b(5), b(6), b(7), pack_byte(bits, i, 8));
}

} // verus!
