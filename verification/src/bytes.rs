//! Little-endian 32-bit values and their four-byte encodings.
//!
//! Every multi-byte integer in the container format and in the instruction
//! stream is little-endian; this module is the single place where bytes and
//! 32-bit values are converted into one another.

use vstd::prelude::*;

verus! {

/// The 32-bit value held by four bytes in little-endian order.
pub open spec fn le32(b0: u8, b1: u8, b2: u8, b3: u8) -> u32 {
    (b0 as u32) | (b1 as u32) << 8 | (b2 as u32) << 16 | (b3 as u32) << 24
}

/// The 32-bit value read from four consecutive bytes of `s` starting at `i`.
pub open spec fn le32_at(s: Seq<u8>, i: int) -> u32 {
    le32(s[i], s[i + 1], s[i + 2], s[i + 3])
}

/// The four little-endian bytes of a 32-bit value.
pub open spec fn le_bytes(x: u32) -> Seq<u8> {
    seq![
        (x % 256) as u8,
        ((x >> 8) % 256) as u8,
        ((x >> 16) % 256) as u8,
        ((x >> 24) % 256) as u8,
    ]
}

/// Reassembling the four little-endian bytes of a value gives the value back.
pub proof fn lemma_le32_of_le_bytes(x: u32)
    ensures
        le32(le_bytes(x)[0], le_bytes(x)[1], le_bytes(x)[2], le_bytes(x)[3]) == x,
{
    assert(((x % 256) as u8 as u32) | (((x >> 8) % 256) as u8 as u32) << 8 | (((x >> 16)
        % 256) as u8 as u32) << 16 | (((x >> 24) % 256) as u8 as u32) << 24 == x)
        by (bit_vector);
}

/// Appends the four little-endian bytes of `x` to `out`.
pub fn push_le32(out: &mut Vec<u8>, x: u32)
    ensures
        final(out)@ == old(out)@ + le_bytes(x),
{
    out.push((x % 256) as u8);
    out.push(((x >> 8) % 256) as u8);
    out.push(((x >> 16) % 256) as u8);
    out.push(((x >> 24) % 256) as u8);
    assert(out@ =~= old(out)@ + le_bytes(x));
}

/// Appends every byte of `src` to `out`.
pub fn push_all(out: &mut Vec<u8>, src: &Vec<u8>)
    ensures
        final(out)@ == old(out)@ + src@,
{
    let mut j: usize = 0;
    while j < src.len()
        invariant
            j <= src@.len(),
            out@ == old(out)@ + src@.subrange(0, j as int),
        decreases src@.len() - j,
    {
        out.push(src[j]);
        j = j + 1;
        assert(out@ =~= old(out)@ + src@.subrange(0, j as int));
    }
    assert(out@ =~= old(out)@ + src@);
}

} // verus!
