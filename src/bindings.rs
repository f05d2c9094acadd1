//! Flat entry points for foreign-language bindings: owned arguments and results,
//! each forwarding to the module that does the work.

use vstd::prelude::*;
use vstd::string::StringSliceAdditionalSpecFns;
use crate::crypto::table::{name_seed, word_stream};
use crate::crypto::xor::{xor_cycled, xor_paired, xor_ranged, ENCRYPTION_KEY};
use crate::error::TableEncryptionError;
use crate::foreign::{base64_alphabet_char, base64_decoded, base64_of, crc32_of, hmac_md5_of, md5_of, mt_seeded, utf16_of};
use crate::math::endian::{bytes_to_vec, u32_from_le, u64_from_le};
use crate::math::mersenne::int31_stream;
use crate::table_encryption::{encrypt_string_post, plain_string_of, xor_word32, xor_word64};
use crate::text::{hex8_upper, hex_lower};

pub use crate::error::HashError;
pub use crate::hash::CrcResult;

verus! {

/// The CRC-32 of `buffer`.
pub fn crc_compute_bytes(buffer: &[u8]) -> (r: u32)
    ensures
        r == crc32_of(buffer@),
{
    crate::hash::crc::compute_bytes(buffer, None)
}

/// The CRC-32 of `data` with its hex form.
pub fn crc_evaluate(data: &[u8]) -> (r: CrcResult)
    ensures
        r.value == crc32_of(data@),
        r.hex@ == hex8_upper(r.value),
{
    crate::hash::evaluate_crc32(data)
}

/// Each byte as two lower-case hex digits.
pub fn md5_to_hex_string(data: &[u8]) -> (r: String)
    ensures
        r@ == hex_lower(data@),
{
    crate::crypto::md5::to_hex_string(data)
}

/// The MD5 digest of `source`.
pub fn md5_compute_hash(source: &[u8]) -> (r: Vec<u8>)
    ensures
        r@ == md5_of(source@),
{
    let h = crate::crypto::md5::compute_hash(source);
    bytes_to_vec(&h)
}

/// The HMAC-MD5 tag of `source` under `key`.
pub fn md5_compute_hash_hmac(source: &[u8], key: &[u8]) -> (r: Vec<u8>)
    ensures
        r@ == hmac_md5_of(key@, source@),
{
    let h = crate::crypto::md5::compute_hash_hmac(source, key);
    bytes_to_vec(&h)
}

/// The MD5 digest of the string in lower-case hex.
pub fn md5_compute_hash_str(source: &str) -> (r: String)
    ensures
        r@ == hex_lower(md5_of(source.spec_bytes())),
{
    crate::crypto::md5::compute_hash_str(source)
}

/// The HMAC-MD5 tag of `source` under `key` in lower-case hex.
pub fn md5_compute_hash_str_hmac(source: &str, key: &str) -> (r: String)
    ensures
        r@ == hex_lower(hmac_md5_of(key.spec_bytes(), source.spec_bytes())),
{
    crate::crypto::md5::compute_hash_str_hmac(source, key)
}

/// The first four digest bytes, little-endian.
pub fn md5_compute_digest(source: &str) -> (r: u32)
    ensures
        r == u32_from_le(md5_of(source.spec_bytes())),
{
    crate::crypto::md5::compute_digest(source)
}

/// The first four HMAC-MD5 tag bytes, little-endian.
pub fn md5_compute_digest_hmac(source: &str, key: &str) -> (r: u32)
    ensures
        r == u32_from_le(hmac_md5_of(key.spec_bytes(), source.spec_bytes())),
{
    crate::crypto::md5::compute_digest_hmac(source, key)
}

/// The first eight digest bytes, little-endian.
pub fn md5_compute_digest64(source: &str) -> (r: u64)
    ensures
        r == u64_from_le(md5_of(source.spec_bytes())),
{
    crate::crypto::md5::compute_digest64(source)
}

/// The first eight HMAC-MD5 tag bytes, little-endian.
pub fn md5_compute_digest64_hmac(source: &str, key: &str) -> (r: u64)
    ensures
        r == u64_from_le(hmac_md5_of(key.spec_bytes(), source.spec_bytes())),
{
    crate::crypto::md5::compute_digest64_hmac(source, key)
}

/// The first digest byte as two lower-case hex digits.
pub fn md5_compute_head(source: &str) -> (r: String)
    ensures
        r@ == hex_lower(md5_of(source.spec_bytes()).subrange(0, 1)),
{
    crate::crypto::md5::compute_head(source)
}

/// `data` with `data[offset .. offset + length]` (clipped to its end) XOR-ed with the
/// fixed key byte.
pub fn xor_encrypt(data: Vec<u8>, offset: u64, length: u64) -> (r: Vec<u8>)
    ensures
        r@ == xor_ranged(data@, offset as usize as int, length as usize as int, (ENCRYPTION_KEY & 0xFF) as u8),
{
    let mut data = data;
    crate::crypto::xor::encrypt(data.as_mut_slice(), offset as usize, length as usize);
    data
}

/// Cyclic XOR, `None` when either input is empty.
pub fn xor_encrypt_with_key(data: &[u8], key: &[u8]) -> (r: Option<Vec<u8>>)
    ensures
        data@.len() == 0 || key@.len() == 0 ==> r is None,
        data@.len() > 0 && key@.len() > 0 ==> (r is Some && r->Some_0@ == xor_cycled(data@, key@)),
{
    crate::crypto::xor::encrypt_with_key(data, key)
}

/// Pairwise XOR over the shorter input.
pub fn xor_exact(value: &[u8], key: &[u8]) -> (r: Vec<u8>)
    ensures
        r@ == xor_paired(value@, key@),
{
    crate::crypto::xor::xor_exact(value, key)
}

/// Cyclic XOR of `data` with `key`; an empty key changes nothing.
pub fn xor_inplace_bytes(data: Vec<u8>, key: &[u8]) -> (r: Vec<u8>)
    ensures
        r@ == xor_cycled(data@, key@),
{
    let mut data = data;
    crate::crypto::xor::xor_inplace(data.as_mut_slice(), key);
    data
}

/// The eight-byte key of a name.
pub fn table_create_key(name: &str) -> (r: Vec<u8>)
    ensures
        r@ == int31_stream(mt_seeded(name_seed(name)), 8),
{
    let k = crate::crypto::table::create_key(name);
    bytes_to_vec(&k)
}

/// An archive password of `length` base64 characters (for a multiple of 4).
pub fn table_create_password(key: &str, length: u64) -> (r: String)
    requires
        length as usize == length,
        length <= usize::MAX / 3,
    ensures
        r@ == base64_of(int31_stream(mt_seeded(name_seed(key)), (length * 3 / 4) as nat)),
        base64_decoded(r@) == Some(int31_stream(mt_seeded(name_seed(key)), (length * 3 / 4) as nat)),
        forall|i: int| 0 <= i < r@.len() ==> base64_alphabet_char(#[trigger] r@[i]) || r@[i] == '=',
        length % 4 == 0 ==> r@.len() == length,
        length % 4 == 0 ==> forall|i: int| 0 <= i < r@.len() ==> base64_alphabet_char(#[trigger] r@[i]),
{
    crate::crypto::table::create_password(key, length as usize)
}

/// `data` XOR-ed with the raw keystream words that `name` seeds.
pub fn table_xor(name: &str, data: Vec<u8>) -> (r: Vec<u8>)
    ensures
        r@ == xor_paired(data@, word_stream(mt_seeded(name_seed(name)), data@.len())),
{
    let mut data = data;
    crate::crypto::table::xor(name, data.as_mut_slice());
    data
}

/// The 32-bit integer codec.
pub fn table_decrypt_i32(value: i32, key: &[u8]) -> (r: i32)
    ensures
        r == xor_word32(value as u32, key@) as i32,
{
    crate::crypto::table::decrypt_i32(value, key)
}

/// The 64-bit integer codec.
pub fn table_decrypt_i64(value: i64, key: &[u8]) -> (r: i64)
    ensures
        r == xor_word64(value as u64, key@) as i64,
{
    crate::crypto::table::decrypt_i64(value, key)
}

/// The unsigned 32-bit integer codec.
pub fn table_decrypt_u32(value: u32, key: &[u8]) -> (r: u32)
    ensures
        r == xor_word32(value, key@),
{
    crate::crypto::table::decrypt_u32(value, key)
}

/// The unsigned 64-bit integer codec.
pub fn table_decrypt_u64(value: u64, key: &[u8]) -> (r: u64)
    ensures
        r == xor_word64(value, key@),
{
    crate::crypto::table::decrypt_u64(value, key)
}

/// String deciphering (see `crypto::table::decrypt_string`).
pub fn table_decrypt_string(value: &str, key: &[u8]) -> (r: Result<String, TableEncryptionError>)
    ensures
        value@.len() == 0 ==> (r is Ok && r->Ok_0@.len() == 0),
        value@.len() > 0 ==> (r is Ok <==> base64_decoded(value@) is Some),
        value@.len() > 0 && r is Ok ==> plain_string_of(base64_decoded(value@)->0, key@, r->Ok_0@),
        r is Err ==> r->Err_0 is Base64Decode,
{
    crate::crypto::table::decrypt_string(value, key)
}

/// String enciphering (see `crypto::table::encrypt_string`).
pub fn table_encrypt_string(value: &str, key: &[u8]) -> (r: String)
    requires
        value@.len() <= usize::MAX / 8,
    ensures
        value@.len() == 0 ==> r@.len() == 0,
        value@.len() > 0 ==> encrypt_string_post(value@, key@, r@),
        value@.len() > 0 ==> r@.len() == 4 * ((2 * utf16_of(value@).len() + 2) / 3),
{
    crate::crypto::table::encrypt_string(value, key)
}

} // verus!
