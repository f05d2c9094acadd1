use vstd::prelude::*;

verus! {

/// The four bytes of `w`, least significant first.
pub open spec fn u32_le(w: u32) -> Seq<u8> {
    seq![(w & 0xff) as u8, ((w >> 8) & 0xff) as u8, ((w >> 16) & 0xff) as u8, ((w >> 24) & 0xff) as u8]
}

/// The word whose little-endian bytes are `b[0..4]`.
pub open spec fn u32_from_le(b: Seq<u8>) -> u32 {
    (b[0] as u32) | ((b[1] as u32) << 8) | ((b[2] as u32) << 16) | ((b[3] as u32) << 24)
}

/// The eight bytes of `w`, least significant first.
pub open spec fn u64_le(w: u64) -> Seq<u8> {
    u32_le((w & 0xffff_ffff) as u32) + u32_le((w >> 32) as u32)
}

/// The word whose little-endian bytes are `b[0..8]`.
pub open spec fn u64_from_le(b: Seq<u8>) -> u64 {
    (u32_from_le(b.subrange(0, 4)) as u64) | ((u32_from_le(b.subrange(4, 8)) as u64) << 32)
}

/// The four bytes of `w`, most significant first.
pub open spec fn u32_be(w: u32) -> Seq<u8> {
    seq![((w >> 24) & 0xff) as u8, ((w >> 16) & 0xff) as u8, ((w >> 8) & 0xff) as u8, (w & 0xff) as u8]
}

/// The word whose big-endian bytes are `b[0..4]`.
pub open spec fn u32_from_be(b: Seq<u8>) -> u32 {
    u32_from_le(seq![b[3], b[2], b[1], b[0]])
}

proof fn lemma_u32_bytes_bits(w: u32)
    ensures
        ((w & 0xff) as u8 as u32) | ((((w >> 8) & 0xff) as u8 as u32) << 8) | ((((w >> 16) & 0xff) as u8 as u32) << 16)
            | ((((w >> 24) & 0xff) as u8 as u32) << 24) == w,
{
    assert(((w & 0xff) as u8 as u32) | ((((w >> 8) & 0xff) as u8 as u32) << 8) | ((((w >> 16) & 0xff) as u8 as u32) << 16)
        | ((((w >> 24) & 0xff) as u8 as u32) << 24) == w) by (bit_vector);
}

/// Reading back the little-endian bytes of a word gives the word.
pub proof fn lemma_u32_le_round_trip(w: u32)
    ensures
        u32_from_le(u32_le(w)) == w,
{
    lemma_u32_bytes_bits(w);
}

/// Reading back the big-endian bytes of a word gives the word.
pub proof fn lemma_u32_be_round_trip(w: u32)
    ensures
        u32_from_be(u32_be(w)) == w,
{
    let b = u32_be(w);
    assert(seq![b[3], b[2], b[1], b[0]] =~= u32_le(w));
    lemma_u32_bytes_bits(w);
}

/// Writing out a word read from four bytes gives the bytes.
pub proof fn lemma_u32_from_le_round_trip(b: Seq<u8>)
    requires
        b.len() == 4,
    ensures
        u32_le(u32_from_le(b)) == b,
{
    let (b0, b1, b2, b3) = (b[0], b[1], b[2], b[3]);
    let w = (b0 as u32) | ((b1 as u32) << 8) | ((b2 as u32) << 16) | ((b3 as u32) << 24);
    assert((w & 0xff) as u8 == b0 && ((w >> 8) & 0xff) as u8 == b1 && ((w >> 16) & 0xff) as u8 == b2
        && ((w >> 24) & 0xff) as u8 == b3) by (bit_vector)
        requires
            w == (b0 as u32) | ((b1 as u32) << 8) | ((b2 as u32) << 16) | ((b3 as u32) << 24),
    ;
    assert(u32_le(u32_from_le(b)) =~= b);
}

/// Reading back the little-endian bytes of a 64-bit word gives the word.
pub proof fn lemma_u64_le_round_trip(w: u64)
    ensures
        u64_from_le(u64_le(w)) == w,
{
    let lo = (w & 0xffff_ffff) as u32;
    let hi = (w >> 32) as u32;
    assert(u64_le(w).subrange(0, 4) =~= u32_le(lo));
    assert(u64_le(w).subrange(4, 8) =~= u32_le(hi));
    lemma_u32_le_round_trip(lo);
    lemma_u32_le_round_trip(hi);
    assert((lo as u64) | ((hi as u64) << 32) == w) by (bit_vector)
        requires
            lo == (w & 0xffff_ffff) as u32,
            hi == (w >> 32) as u32,
    ;
}

/// Writing out a 64-bit word read from eight bytes gives the bytes.
pub proof fn lemma_u64_from_le_round_trip(b: Seq<u8>)
    requires
        b.len() == 8,
    ensures
        u64_le(u64_from_le(b)) == b,
{
    let lo = u32_from_le(b.subrange(0, 4));
    let hi = u32_from_le(b.subrange(4, 8));
    let w = u64_from_le(b);
    assert((w & 0xffff_ffff) as u32 == lo && (w >> 32) as u32 == hi) by (bit_vector)
        requires
            w == (lo as u64) | ((hi as u64) << 32),
    ;
    lemma_u32_from_le_round_trip(b.subrange(0, 4));
    lemma_u32_from_le_round_trip(b.subrange(4, 8));
    assert(u64_le(w) =~= b);
}

/// The little-endian bytes of `w`.
pub fn u32_to_le(w: u32) -> (r: [u8; 4])
    ensures
        r@ == u32_le(w),
{
    let r = [(w & 0xff) as u8, ((w >> 8) & 0xff) as u8, ((w >> 16) & 0xff) as u8, ((w >> 24) & 0xff) as u8];
    assert(r@ =~= u32_le(w));
    r
}

/// The word whose little-endian bytes are `b[0..4]`.
pub fn u32_of_le(b: &[u8]) -> (r: u32)
    requires
        b@.len() >= 4,
    ensures
        r == u32_from_le(b@),
{
    (b[0] as u32) | ((b[1] as u32) << 8) | ((b[2] as u32) << 16) | ((b[3] as u32) << 24)
}

/// The little-endian bytes of a 64-bit `w`.
pub fn u64_to_le(w: u64) -> (r: [u8; 8])
    ensures
        r@ == u64_le(w),
{
    let lo = (w & 0xffff_ffff) as u32;
    let hi = (w >> 32) as u32;
    let a = u32_to_le(lo);
    let b = u32_to_le(hi);
    let r = [a[0], a[1], a[2], a[3], b[0], b[1], b[2], b[3]];
    assert(r@ =~= u64_le(w));
    r
}

/// The 64-bit word whose little-endian bytes are `b[0..8]`.
pub fn u64_of_le(b: &[u8]) -> (r: u64)
    requires
        b@.len() >= 8,
    ensures
        r == u64_from_le(b@),
{
    let lo = (b[0] as u32) | ((b[1] as u32) << 8) | ((b[2] as u32) << 16) | ((b[3] as u32) << 24);
    let hi = (b[4] as u32) | ((b[5] as u32) << 8) | ((b[6] as u32) << 16) | ((b[7] as u32) << 24);
    assert(lo == u32_from_le(b@.subrange(0, 4)));
    assert(hi == u32_from_le(b@.subrange(4, 8)));
    (lo as u64) | ((hi as u64) << 32)
}

/// A copy of `b` as a vector.
pub fn bytes_to_vec(b: &[u8]) -> (r: Vec<u8>)
    ensures
        r@ == b@,
{
    let mut out: Vec<u8> = Vec::with_capacity(b.len());
    let mut i: usize = 0;
    while i < b.len()
        invariant
            i <= b@.len(),
            out@ =~= b@.subrange(0, i as int),
        decreases b@.len() - i,
    {
        out.push(b[i]);
        i = i + 1;
    }
    assert(out@ =~= b@);
    out
}

} // verus!
