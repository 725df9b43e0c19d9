//! Big-endian byte-order helpers: the wire format stores every multi-byte
//! integer high byte first.

use vstd::prelude::*;

verus! {

/// The two big-endian bytes of a 16-bit value.
pub open spec fn be16(v: u16) -> Seq<u8> {
    seq![(v / 0x100) as u8, (v % 0x100) as u8]
}

/// The four big-endian bytes of a 32-bit value.
pub open spec fn be32(v: u32) -> Seq<u8> {
    be16((v / 0x10000) as u16) + be16((v % 0x10000) as u16)
}

/// The eight big-endian bytes of a 64-bit value.
pub open spec fn be64(v: u64) -> Seq<u8> {
    be32((v / 0x1_0000_0000) as u32) + be32((v % 0x1_0000_0000) as u32)
}

/// The 16-bit value held big-endian at position `i` of `s`.
pub open spec fn u16_at(s: Seq<u8>, i: int) -> u16
    recommends
        0 <= i,
        i + 2 <= s.len(),
{
    (s[i] * 0x100 + s[i + 1]) as u16
}

/// The 32-bit value held big-endian at position `i` of `s`.
pub open spec fn u32_at(s: Seq<u8>, i: int) -> u32
    recommends
        0 <= i,
        i + 4 <= s.len(),
{
    (u16_at(s, i) * 0x10000 + u16_at(s, i + 2)) as u32
}

/// The 64-bit value held big-endian at position `i` of `s`.
pub open spec fn u64_at(s: Seq<u8>, i: int) -> u64
    recommends
        0 <= i,
        i + 8 <= s.len(),
{
    (u32_at(s, i) * 0x1_0000_0000 + u32_at(s, i + 4)) as u64
}

/// Appends the big-endian bytes of a 16-bit value.
pub fn push_u16(buf: &mut Vec<u8>, v: u16)
    ensures
        final(buf)@ == old(buf)@ + be16(v),
{
    buf.push((v / 0x100) as u8);
    buf.push((v % 0x100) as u8);
    proof {
        assert(buf@ =~= old(buf)@ + be16(v));
    }
}

/// Appends the big-endian bytes of a 32-bit value.
pub fn push_u32(buf: &mut Vec<u8>, v: u32)
    ensures
        final(buf)@ == old(buf)@ + be32(v),
{
    push_u16(buf, (v / 0x10000) as u16);
    push_u16(buf, (v % 0x10000) as u16);
    proof {
        assert(buf@ =~= old(buf)@ + be32(v));
    }
}

/// Appends the big-endian bytes of a 64-bit value.
pub fn push_u64(buf: &mut Vec<u8>, v: u64)
    ensures
        final(buf)@ == old(buf)@ + be64(v),
{
    push_u32(buf, (v / 0x1_0000_0000) as u32);
    push_u32(buf, (v % 0x1_0000_0000) as u32);
    proof {
        assert(buf@ =~= old(buf)@ + be64(v));
    }
}

/// Reads the big-endian 16-bit value at `pos`.
pub fn read_u16(buf: &[u8], pos: usize) -> (r: u16)
    requires
        pos + 2 <= buf@.len(),
    ensures
        r == u16_at(buf@, pos as int),
{
    let b0 = buf[pos];
    let b1 = buf[pos + 1];
    (b0 as u16) * 0x100 + (b1 as u16)
}

/// Reads the big-endian 32-bit value at `pos`.
pub fn read_u32(buf: &[u8], pos: usize) -> (r: u32)
    requires
        pos + 4 <= buf@.len(),
    ensures
        r == u32_at(buf@, pos as int),
{
    proof {
        assert(buf@.len() <= usize::MAX) by {
            broadcast use vstd::slice::axiom_spec_len;

            assert(vstd::slice::spec_slice_len(buf) == buf@.len());
        }
    }
    let hi = read_u16(buf, pos);
    let lo = read_u16(buf, pos + 2);
    (hi as u32) * 0x10000 + (lo as u32)
}

/// Reads the big-endian 64-bit value at `pos`.
pub fn read_u64(buf: &[u8], pos: usize) -> (r: u64)
    requires
        pos + 8 <= buf@.len(),
    ensures
        r == u64_at(buf@, pos as int),
{
    proof {
        assert(buf@.len() <= usize::MAX) by {
            broadcast use vstd::slice::axiom_spec_len;

            assert(vstd::slice::spec_slice_len(buf) == buf@.len());
        }
    }
    let hi = read_u32(buf, pos);
    let lo = read_u32(buf, pos + 4);
    (hi as u64) * 0x1_0000_0000 + (lo as u64)
}

/// Reading back the bytes that `be16` wrote recovers the value.
pub proof fn lemma_be16_inverse(v: u16)
    ensures
        u16_at(be16(v), 0) == v,
{
    assert((v / 0x100) * 0x100 + (v % 0x100) == v) by (nonlinear_arith);
}

/// Reading back the bytes that `be32` wrote recovers the value.
pub proof fn lemma_be32_inverse(v: u32)
    ensures
        u32_at(be32(v), 0) == v,
        u16_at(be32(v), 0) == (v / 0x10000) as u16,
        u16_at(be32(v), 2) == (v % 0x10000) as u16,
{
    let hi = (v / 0x10000) as u16;
    let lo = (v % 0x10000) as u16;
    lemma_be16_inverse(hi);
    lemma_be16_inverse(lo);
    assert(be32(v)[0] == be16(hi)[0]);
    assert(be32(v)[1] == be16(hi)[1]);
    assert(be32(v)[2] == be16(lo)[0]);
    assert(be32(v)[3] == be16(lo)[1]);
    assert((v / 0x10000) * 0x10000 + (v % 0x10000) == v) by (nonlinear_arith);
}

} // verus!
