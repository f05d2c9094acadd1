//! Checksums and hashes: CRC-32 with its hex form, xxHash, and hashed asset names.

pub mod crc;
pub mod xxhash;

use vstd::prelude::*;
use vstd::utf8::encode_utf8;
use crate::error::HashError;
use crate::foreign::{crc32_of, lower_of, push_char, to_lowercase, xxh32_of, xxh64_of};
use crate::hash::xxhash::byte_swap64;
use crate::text::{decimal, hex8, hex8_upper, push_decimal, push_signed_decimal, signed_decimal};

verus! {

/// A CRC-32 value together with its rendering as eight upper-case hex digits.
pub struct CrcResult {
    pub value: u32,
    pub hex: String,
}

impl CrcResult {
    /// Well formed: the hex form is the value's.
    pub open spec fn wf(&self) -> bool {
        self.hex@ == hex8_upper(self.value)
    }

    /// The result for `value`, with its hex form.
    pub fn new(value: u32) -> (r: Self)
        ensures
            r.value == value,
            r.wf(),
    {
        CrcResult { value, hex: hex8(value) }
    }
}

/// The CRC-32 of `data` with its hex form.
pub fn evaluate_crc32(data: &[u8]) -> (r: CrcResult)
    ensures
        r.value == crc32_of(data@),
        r.wf(),
{
    CrcResult::new(crc32fast::hash(data))
}

/// The xxHash of `bytes` (seed 0) widened to 64 bits: the 32-bit one unless
/// `bit64`; the 64-bit one is read big-endian (bytes swapped) when `endian`.
pub open spec fn xxhash_value(bytes: Seq<u8>, bit64: bool, endian: bool) -> u64 {
    if !bit64 {
        xxh32_of(bytes, 0) as u64
    } else if endian {
        byte_swap64(xxh64_of(bytes, 0))
    } else {
        xxh64_of(bytes, 0)
    }
}

/// xxHash of `bytes` with seed 0, as `xxhash_value` describes.
pub fn calculate_xxhash(bytes: &[u8], bit64: bool, endian: bool) -> (r: u64)
    ensures
        r == xxhash_value(bytes@, bit64, endian),
{
    if !bit64 {
        return xxhash_rust::xxh32::xxh32(bytes, 0) as u64;
    }
    let hash = xxhash_rust::xxh64::xxh64(bytes, 0);
    if endian { crate::hash::xxhash::swap_u64(hash) } else { hash }
}

/// The hashed name of an asset: the big-endian 64-bit xxHash of the lower-cased
/// file name, an underscore, and the CRC, both in decimal.
pub open spec fn hashed_name(filename: Seq<char>, crc: i64) -> Seq<char> {
    decimal(xxhash_value(encode_utf8(lower_of(filename)), true, true) as nat) + seq!['_'] + signed_decimal(crc as int)
}

/// The hashed name of an asset (see `hashed_name`).
pub fn encrypt_name(filename: &str, crc: i64) -> (r: Result<String, HashError>)
    ensures
        r is Ok,
        r->Ok_0@ == hashed_name(filename@, crc),
{
    let lower = to_lowercase(filename);
    let h = calculate_xxhash(lower.as_str().as_bytes(), true, true);
    let mut s = String::new();
    push_decimal(&mut s, h);
    push_char(&mut s, '_');
    push_signed_decimal(&mut s, crc);
    assert(s@ =~= hashed_name(filename@, crc));
    Ok(s)
}

} // verus!
