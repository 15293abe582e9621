//! Big-endian 16-bit fields as they appear on the Modbus wire.

use vstd::prelude::*;

verus! {

/// A 16-bit value read from two bytes, high byte first.
pub open spec fn be16(hi: u8, lo: u8) -> u16 {
    (hi as int * 256 + lo as int) as u16
}

/// The big-endian 16-bit field at `k` of `s`.
pub open spec fn field(s: Seq<u8>, k: int) -> u16 {
    be16(s[k], s[k + 1])
}

/// The two bytes of `v`, high byte first.
pub open spec fn be_bytes(v: u16) -> Seq<u8> {
    seq![(v / 256) as u8, (v % 256) as u8]
}

/// The registers of `vals`, each high byte first, in order.
pub open spec fn regs_be(vals: Seq<u16>) -> Seq<u8>
    decreases vals.len(),
{
    if vals.len() == 0 {
        Seq::empty()
    } else {
        regs_be(vals.drop_last()) + be_bytes(vals.last())
    }
}

/// The big-endian 16-bit field at `k` of `s`.
pub fn read_be16(s: &[u8], k: usize) -> (r: u16)
    requires
        k + 1 < s@.len(),
    ensures
        r == field(s@, k as int),
{
    s[k] as u16 * 256 + s[k + 1] as u16
}

/// Appends `v`, high byte first.
pub fn push_be16(out: &mut Vec<u8>, v: u16)
    ensures
        final(out)@ == old(out)@ + be_bytes(v),
{
    let hi: u8 = (v / 256) as u8;
    let lo: u8 = (v % 256) as u8;
    out.push(hi);
    out.push(lo);
    proof {
        assert(final(out)@ =~= old(out)@ + be_bytes(v));
    }
}

/// Appends the registers of `vals`, each high byte first.
pub fn push_regs_be(out: &mut Vec<u8>, vals: &[u16])
    ensures
        final(out)@ == old(out)@ + regs_be(vals@),
{
    let mut i: usize = 0;
    while i < vals.len()
        invariant
            i <= vals@.len(),
            out@ == old(out)@ + regs_be(vals@.take(i as int)),
        decreases vals@.len() - i,
    {
        proof {
            assert(vals@.take(i + 1).drop_last() =~= vals@.take(i as int));
        }
        push_be16(out, vals[i]);
        proof {
            assert(out@ =~= old(out)@ + regs_be(vals@.take(i + 1)));
        }
        i = i + 1;
    }
    proof {
        assert(vals@.take(vals@.len() as int) =~= vals@);
    }
}

/// The length of `regs_be` is twice the number of registers.
pub proof fn lemma_regs_be_len(vals: Seq<u16>)
    ensures
        regs_be(vals).len() == 2 * vals.len(),
    decreases vals.len(),
{
    if vals.len() > 0 {
        lemma_regs_be_len(vals.drop_last());
    }
}

/// Register `i` of `vals` sits at bytes `2i` and `2i + 1` of `regs_be(vals)`.
pub proof fn lemma_regs_be_index(vals: Seq<u16>, i: int)
    requires
        0 <= i < vals.len(),
    ensures
        regs_be(vals).len() == 2 * vals.len(),
        regs_be(vals)[2 * i] == (vals[i] / 256) as u8,
        regs_be(vals)[2 * i + 1] == (vals[i] % 256) as u8,
    decreases vals.len(),
{
    lemma_regs_be_len(vals);
    lemma_regs_be_len(vals.drop_last());
    if i < vals.len() - 1 {
        lemma_regs_be_index(vals.drop_last(), i);
    }
}

} // verus!
