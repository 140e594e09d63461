use vstd::prelude::*;

verus! {

/// The eight little-endian bytes of `x`.
pub open spec fn u64_bytes(x: u64) -> Seq<u8> {
    seq![
        x as u8,
        (x >> 8u64) as u8,
        (x >> 16u64) as u8,
        (x >> 24u64) as u8,
        (x >> 32u64) as u8,
        (x >> 40u64) as u8,
        (x >> 48u64) as u8,
        (x >> 56u64) as u8,
    ]
}

/// The four little-endian bytes of `x`.
pub open spec fn u32_bytes(x: u32) -> Seq<u8> {
    seq![x as u8, (x >> 8u32) as u8, (x >> 16u32) as u8, (x >> 24u32) as u8]
}

/// The little-endian `u64` stored at position `p` of `d`.
pub open spec fn le64(d: Seq<u8>, p: int) -> u64 {
    (d[p] as u64) | ((d[p + 1] as u64) << 8u64) | ((d[p + 2] as u64) << 16u64) | ((d[p
        + 3] as u64) << 24u64) | ((d[p + 4] as u64) << 32u64) | ((d[p + 5] as u64) << 40u64)
        | ((d[p + 6] as u64) << 48u64) | ((d[p + 7] as u64) << 56u64)
}

/// The little-endian `u32` stored at position `p` of `d`.
pub open spec fn le32(d: Seq<u8>, p: int) -> u32 {
    (d[p] as u32) | ((d[p + 1] as u32) << 8u32) | ((d[p + 2] as u32) << 16u32) | ((d[p
        + 3] as u32) << 24u32)
}

proof fn lemma_u64_bits(x: u64)
    ensures
        ((x as u8) as u64) | ((((x >> 8u64) as u8) as u64) << 8u64) | ((((x >> 16u64) as u8)
            as u64) << 16u64) | ((((x >> 24u64) as u8) as u64) << 24u64) | ((((x >> 32u64)
            as u8) as u64) << 32u64) | ((((x >> 40u64) as u8) as u64) << 40u64) | ((((x
            >> 48u64) as u8) as u64) << 48u64) | ((((x >> 56u64) as u8) as u64) << 56u64)
            == x,
{
    assert(((x as u8) as u64) | ((((x >> 8u64) as u8) as u64) << 8u64) | ((((x >> 16u64)
        as u8) as u64) << 16u64) | ((((x >> 24u64) as u8) as u64) << 24u64) | ((((x
        >> 32u64) as u8) as u64) << 32u64) | ((((x >> 40u64) as u8) as u64) << 40u64) | ((((x
        >> 48u64) as u8) as u64) << 48u64) | ((((x >> 56u64) as u8) as u64) << 56u64) == x)
        by (bit_vector);
}

proof fn lemma_u32_bits(x: u32)
    ensures
        ((x as u8) as u32) | ((((x >> 8u32) as u8) as u32) << 8u32) | ((((x >> 16u32) as u8)
            as u32) << 16u32) | ((((x >> 24u32) as u8) as u32) << 24u32) == x,
{
    assert(((x as u8) as u32) | ((((x >> 8u32) as u8) as u32) << 8u32) | ((((x >> 16u32)
        as u8) as u32) << 16u32) | ((((x >> 24u32) as u8) as u32) << 24u32) == x)
        by (bit_vector);
}

/// Reading back the bytes of a `u64` gives the `u64`.
pub proof fn lemma_le64_at(d: Seq<u8>, p: int, x: u64)
    requires
        0 <= p,
        p + 8 <= d.len(),
        d.subrange(p, p + 8) == u64_bytes(x),
    ensures
        le64(d, p) == x,
{
    let b = u64_bytes(x);
    assert forall|j: int| 0 <= j < 8 implies d[p + j] == #[trigger] b[j] by {
        assert(d.subrange(p, p + 8)[j] == d[p + j]);
    }
    assert(d[p] == b[0] && d[p + 1] == b[1] && d[p + 2] == b[2] && d[p + 3] == b[3]);
    assert(d[p + 4] == b[4] && d[p + 5] == b[5] && d[p + 6] == b[6] && d[p + 7] == b[7]);
    lemma_u64_bits(x);
}

/// Reading back the bytes of a `u32` gives the `u32`.
pub proof fn lemma_le32_at(d: Seq<u8>, p: int, x: u32)
    requires
        0 <= p,
        p + 4 <= d.len(),
        d.subrange(p, p + 4) == u32_bytes(x),
    ensures
        le32(d, p) == x,
{
    let b = u32_bytes(x);
    assert forall|j: int| 0 <= j < 4 implies d[p + j] == #[trigger] b[j] by {
        assert(d.subrange(p, p + 4)[j] == d[p + j]);
    }
    assert(d[p] == b[0] && d[p + 1] == b[1] && d[p + 2] == b[2] && d[p + 3] == b[3]);
    lemma_u32_bits(x);
}

/// Reads the little-endian `u64` at position `p`.
pub fn read_u64(d: &[u8], p: usize) -> (r: u64)
    requires
        p + 8 <= d@.len(),
    ensures
        r == le64(d@, p as int),
{
    (d[p] as u64) | ((d[p + 1] as u64) << 8u64) | ((d[p + 2] as u64) << 16u64) | ((d[p
        + 3] as u64) << 24u64) | ((d[p + 4] as u64) << 32u64) | ((d[p + 5] as u64) << 40u64)
        | ((d[p + 6] as u64) << 48u64) | ((d[p + 7] as u64) << 56u64)
}

/// Reads the little-endian `u32` at position `p`.
pub fn read_u32(d: &[u8], p: usize) -> (r: u32)
    requires
        p + 4 <= d@.len(),
    ensures
        r == le32(d@, p as int),
{
    (d[p] as u32) | ((d[p + 1] as u32) << 8u32) | ((d[p + 2] as u32) << 16u32) | ((d[p
        + 3] as u32) << 24u32)
}

/// Appends the little-endian bytes of `x`.
pub fn push_u64(out: &mut Vec<u8>, x: u64)
    ensures
        final(out)@ == old(out)@ + u64_bytes(x),
{
    out.push(x as u8);
    out.push((x >> 8u64) as u8);
    out.push((x >> 16u64) as u8);
    out.push((x >> 24u64) as u8);
    out.push((x >> 32u64) as u8);
    out.push((x >> 40u64) as u8);
    out.push((x >> 48u64) as u8);
    out.push((x >> 56u64) as u8);
    assert(out@ =~= old(out)@ + u64_bytes(x));
}

/// Appends the little-endian bytes of `x`.
pub fn push_u32(out: &mut Vec<u8>, x: u32)
    ensures
        final(out)@ == old(out)@ + u32_bytes(x),
{
    out.push(x as u8);
    out.push((x >> 8u32) as u8);
    out.push((x >> 16u32) as u8);
    out.push((x >> 24u32) as u8);
    assert(out@ =~= old(out)@ + u32_bytes(x));
}

} // verus!
