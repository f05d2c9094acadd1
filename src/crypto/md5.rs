use vstd::prelude::*;
use vstd::string::StringSliceAdditionalSpecFns;
use crate::foreign::{hmac_md5, hmac_md5_of, md5_digest, md5_of};
use crate::math::endian::{u32_from_le, u32_of_le, u64_from_le, u64_of_le};
use crate::text::{hex_lower, hex_lower_string};

verus! {

/// Each byte as two lower-case hex digits.
pub fn to_hex_string(bytes: &[u8]) -> (r: String)
    ensures
        r@ == hex_lower(bytes@),
{
    hex_lower_string(bytes)
}

/// The MD5 digest of `source`.
pub fn compute_hash(source: &[u8]) -> (r: [u8; 16])
    ensures
        r@ == md5_of(source@),
{
    md5_digest(source)
}

/// The HMAC-MD5 tag of `source` under `key`.
pub fn compute_hash_hmac(source: &[u8], key: &[u8]) -> (r: [u8; 16])
    ensures
        r@ == hmac_md5_of(key@, source@),
{
    hmac_md5(key, source)
}

/// The MD5 digest of the string's UTF-8 bytes, in lower-case hex.
pub fn compute_hash_str(source: &str) -> (r: String)
    ensures
        r@ == hex_lower(md5_of(source.spec_bytes())),
{
    let h = compute_hash(source.as_bytes());
    to_hex_string(&h)
}

/// The HMAC-MD5 tag of `source` under `key` (both as UTF-8), in lower-case hex.
pub fn compute_hash_str_hmac(source: &str, key: &str) -> (r: String)
    ensures
        r@ == hex_lower(hmac_md5_of(key.spec_bytes(), source.spec_bytes())),
{
    let h = compute_hash_hmac(source.as_bytes(), key.as_bytes());
    to_hex_string(&h)
}

/// The first four bytes of the MD5 digest, read little-endian.
pub fn compute_digest(source: &str) -> (r: u32)
    ensures
        r == u32_from_le(md5_of(source.spec_bytes())),
{
    let h = compute_hash(source.as_bytes());
    u32_of_le(&h)
}

/// The first four bytes of the HMAC-MD5 tag, read little-endian.
pub fn compute_digest_hmac(source: &str, key: &str) -> (r: u32)
    ensures
        r == u32_from_le(hmac_md5_of(key.spec_bytes(), source.spec_bytes())),
{
    let h = compute_hash_hmac(source.as_bytes(), key.as_bytes());
    u32_of_le(&h)
}

/// The first eight bytes of the MD5 digest, read little-endian.
pub fn compute_digest64(source: &str) -> (r: u64)
    ensures
        r == u64_from_le(md5_of(source.spec_bytes())),
{
    let h = compute_hash(source.as_bytes());
    u64_of_le(&h)
}

/// The first eight bytes of the HMAC-MD5 tag, read little-endian.
pub fn compute_digest64_hmac(source: &str, key: &str) -> (r: u64)
    ensures
        r == u64_from_le(hmac_md5_of(key.spec_bytes(), source.spec_bytes())),
{
    let h = compute_hash_hmac(source.as_bytes(), key.as_bytes());
    u64_of_le(&h)
}

/// The first byte of the MD5 digest as two lower-case hex digits.
pub fn compute_head(source: &str) -> (r: String)
    ensures
        r@ == hex_lower(md5_of(source.spec_bytes()).subrange(0, 1)),
{
    let h = compute_hash(source.as_bytes());
    let first = [h[0]];
    assert(first@ =~= md5_of(source.spec_bytes()).subrange(0, 1));
    to_hex_string(&first)
}

} // verus!
