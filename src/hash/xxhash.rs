use vstd::prelude::*;
use vstd::string::StringSliceAdditionalSpecFns;
use crate::foreign::{xxh32_of, xxh64_of};
use crate::math::endian::{u64_from_le, u64_le, u64_of_le, u64_to_le};

verus! {

/// `x` with its eight bytes in reverse order.
pub open spec fn byte_swap64(x: u64) -> u64 {
    u64_from_le(u64_le(x).reverse())
}

/// A hash widened to 64 bits, byte-swapped when `use_big_endian`.
pub open spec fn endian_value(value: u64, use_big_endian: bool) -> u64 {
    if use_big_endian { byte_swap64(value) } else { value }
}

/// `x` with its eight bytes in reverse order.
pub fn swap_u64(x: u64) -> (r: u64)
    ensures
        r == byte_swap64(x),
{
    let b = u64_to_le(x);
    let s = [b[7], b[6], b[5], b[4], b[3], b[2], b[1], b[0]];
    assert(s@ =~= u64_le(x).reverse());
    u64_of_le(&s)
}

/// `value`, byte-swapped when `use_big_endian`.
pub fn apply_endianness(value: u64, use_big_endian: bool) -> (r: u64)
    ensures
        r == endian_value(value, use_big_endian),
{
    if use_big_endian { swap_u64(value) } else { value }
}

/// xxHash32 (seed 0) of `bytes`, widened, byte-swapped when `use_big_endian`, and
/// cut back to its low 32 bits.
pub fn calculate_hash(bytes: &[u8], use_big_endian: bool) -> (r: u32)
    ensures
        r == endian_value(xxh32_of(bytes@, 0) as u64, use_big_endian) as u32,
{
    apply_endianness(xxhash_rust::xxh32::xxh32(bytes, 0) as u64, use_big_endian) as u32
}

/// `calculate_hash` of the string's UTF-8 bytes; 0 for the empty string.
pub fn calculate_hash_str(s: &str, use_big_endian: bool) -> (r: u32)
    ensures
        r == if s@.len() == 0 { 0 } else { endian_value(xxh32_of(s.spec_bytes(), 0) as u64, use_big_endian) as u32 },
{
    if s.is_empty() {
        return 0;
    }
    calculate_hash(s.as_bytes(), use_big_endian)
}

/// xxHash64 (seed 0) of `bytes`, byte-swapped when `use_big_endian`.
pub fn calculate_hash64(bytes: &[u8], use_big_endian: bool) -> (r: u64)
    ensures
        r == endian_value(xxh64_of(bytes@, 0), use_big_endian),
{
    apply_endianness(xxhash_rust::xxh64::xxh64(bytes, 0), use_big_endian)
}

/// `calculate_hash64` of the string's UTF-8 bytes; 0 for the empty string.
pub fn calculate_hash64_str(s: &str, use_big_endian: bool) -> (r: u64)
    ensures
        r == if s@.len() == 0 { 0 } else { endian_value(xxh64_of(s.spec_bytes(), 0), use_big_endian) },
{
    if s.is_empty() {
        return 0;
    }
    calculate_hash64(s.as_bytes(), use_big_endian)
}

} // verus!
