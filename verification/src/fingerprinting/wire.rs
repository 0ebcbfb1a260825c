//! Little-endian byte layout: spec-level views of 16- and 32-bit words as
//! byte sequences, and verified helpers that write and read them.

use vstd::prelude::*;

verus! {

/// The two bytes of `x` in little-endian order.
pub open spec fn le16(x: u16) -> Seq<u8> {
    seq![(x % 0x100) as u8, (x / 0x100) as u8]
}

/// The four bytes of `x` in little-endian order.
pub open spec fn le32(x: u32) -> Seq<u8> {
    seq![
        (x % 0x100) as u8,
        ((x / 0x100) % 0x100) as u8,
        ((x / 0x1_0000) % 0x100) as u8,
        (x / 0x100_0000) as u8,
    ]
}

/// The 16-bit word stored little-endian at `pos` in `d`.
pub open spec fn le16_at(d: Seq<u8>, pos: int) -> u16
    recommends 0 <= pos, pos + 2 <= d.len(),
{
    ((d[pos] as int) + (d[pos + 1] as int) * 0x100) as u16
}

/// The 32-bit word stored little-endian at `pos` in `d`.
pub open spec fn le32_at(d: Seq<u8>, pos: int) -> u32
    recommends 0 <= pos, pos + 4 <= d.len(),
{
    ((d[pos] as int) + (d[pos + 1] as int) * 0x100 + (d[pos + 2] as int) * 0x1_0000
        + (d[pos + 3] as int) * 0x100_0000) as u32
}

/// Reassembling the little-endian bytes of a 16-bit word gives it back.
pub proof fn lemma_le16_roundtrip(x: u16)
    ensures
        (x % 0x100) + (x / 0x100) * 0x100 == x,
        x / 0x100 < 0x100,
{
    assert((x % 0x100) + (x / 0x100) * 0x100 == x && x / 0x100 < 0x100) by (bit_vector);
}

/// Reassembling the little-endian bytes of a 32-bit word gives it back.
pub proof fn lemma_le32_roundtrip(x: u32)
    ensures
        (x % 0x100) + ((x / 0x100) % 0x100) * 0x100 + ((x / 0x1_0000) % 0x100) * 0x1_0000 + (x
            / 0x100_0000) * 0x100_0000 == x,
        x / 0x100_0000 < 0x100,
{
    assert((x % 0x100) + ((x / 0x100) % 0x100) * 0x100 + ((x / 0x1_0000) % 0x100) * 0x1_0000 + (x
        / 0x100_0000) * 0x100_0000 == x && x / 0x100_0000 < 0x100) by (bit_vector);
}

/// `le16_at` read back from the bytes that `le16` laid down.
pub proof fn lemma_le16_at_of_le16(d: Seq<u8>, pos: int, x: u16)
    requires
        0 <= pos,
        pos + 2 <= d.len(),
        d[pos] == le16(x)[0],
        d[pos + 1] == le16(x)[1],
    ensures
        le16_at(d, pos) == x,
{
    lemma_le16_roundtrip(x);
}

/// `le32_at` read back from the bytes that `le32` laid down.
pub proof fn lemma_le32_at_of_le32(d: Seq<u8>, pos: int, x: u32)
    requires
        0 <= pos,
        pos + 4 <= d.len(),
        d[pos] == le32(x)[0],
        d[pos + 1] == le32(x)[1],
        d[pos + 2] == le32(x)[2],
        d[pos + 3] == le32(x)[3],
    ensures
        le32_at(d, pos) == x,
{
    lemma_le32_roundtrip(x);
}

/// Reading a 32-bit word at the position where it was laid down inside
/// a concatenation gives it back.
pub proof fn lemma_le32_at_concat(pre: Seq<u8>, x: u32, suf: Seq<u8>)
    ensures
        le32_at(pre + le32(x) + suf, pre.len() as int) == x,
{
    let d = pre + le32(x) + suf;
    let pos = pre.len() as int;
    assert(d[pos] == le32(x)[0]);
    assert(d[pos + 1] == le32(x)[1]);
    assert(d[pos + 2] == le32(x)[2]);
    assert(d[pos + 3] == le32(x)[3]);
    lemma_le32_at_of_le32(d, pos, x);
}

/// Reading a 16-bit word at the position where it was laid down inside
/// a concatenation gives it back.
pub proof fn lemma_le16_at_concat(pre: Seq<u8>, x: u16, suf: Seq<u8>)
    ensures
        le16_at(pre + le16(x) + suf, pre.len() as int) == x,
{
    let d = pre + le16(x) + suf;
    let pos = pre.len() as int;
    assert(d[pos] == le16(x)[0]);
    assert(d[pos + 1] == le16(x)[1]);
    lemma_le16_at_of_le16(d, pos, x);
}

/// Appends the two little-endian bytes of `x` to `out`.
pub fn push_u16_le(out: &mut Vec<u8>, x: u16)
    ensures
        final(out)@ == old(out)@ + le16(x),
{
    out.push((x % 0x100) as u8);
    out.push((x / 0x100) as u8);
    proof {
        lemma_le16_roundtrip(x);
        assert(final(out)@ =~= old(out)@ + le16(x));
    }
}

/// Appends the four little-endian bytes of `x` to `out`.
pub fn push_u32_le(out: &mut Vec<u8>, x: u32)
    ensures
        final(out)@ == old(out)@ + le32(x),
{
    out.push((x % 0x100) as u8);
    out.push(((x / 0x100) % 0x100) as u8);
    out.push(((x / 0x1_0000) % 0x100) as u8);
    proof {
        lemma_le32_roundtrip(x);
    }
    out.push((x / 0x100_0000) as u8);
    proof {
        assert(final(out)@ =~= old(out)@ + le32(x));
    }
}

/// Reads the 16-bit word stored little-endian at `pos` in `d`.
pub fn read_u16_le(d: &[u8], pos: usize) -> (r: u16)
    requires
        pos + 2 <= d@.len(),
    ensures
        r == le16_at(d@, pos as int),
{
    let b0 = d[pos] as u16;
    let b1 = d[pos + 1] as u16;
    b0 + b1 * 0x100
}

/// Reads the 32-bit word stored little-endian at `pos` in `d`.
pub fn read_u32_le(d: &[u8], pos: usize) -> (r: u32)
    requires
        pos + 4 <= d@.len(),
    ensures
        r == le32_at(d@, pos as int),
{
    let b0 = d[pos] as u32;
    let b1 = d[pos + 1] as u32;
    let b2 = d[pos + 2] as u32;
    let b3 = d[pos + 3] as u32;
    b0 + b1 * 0x100 + b2 * 0x1_0000 + b3 * 0x100_0000
}

} // verus!
