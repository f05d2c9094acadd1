use vstd::prelude::*;
use vstd::string::StringSliceAdditionalSpecFns;
use rand_mt::Mt19937GenRand32;
use crate::crypto::xor::xor_paired;
use crate::error::TableEncryptionError;
use crate::foreign::{base64_alphabet_char, base64_decoded, base64_encode, base64_of, mt_seeded, utf16_of, xxh32_of};
use crate::math::endian::{u32_le, u32_to_le};
use crate::math::mersenne::{int31_stream, lemma_mt_skip_step, mt_skip, mt_word};
use crate::table_encryption::{
    cipher_string, convert_string, encrypt_string_post, lemma_utf16_nonempty, modulus_of, plain_string_of, next_bytes, xor_int32, xor_int64,
    xor_uint32, xor_uint64, xor_word32, xor_word64,
};

verus! {

/// The keystream seed of a name: xxHash32 (seed 0) of its UTF-8 bytes, 0 for the
/// empty name.
pub open spec fn name_seed(name: &str) -> u32 {
    if name@.len() == 0 { 0 } else { xxh32_of(name.spec_bytes(), 0) }
}

/// The first `n` raw keystream bytes from state `s`: each word laid out
/// little-endian, the last one cut short.
pub open spec fn word_stream(s: Mt19937GenRand32, n: nat) -> Seq<u8> {
    Seq::new(n, |i: int| u32_le(mt_word(s, (i / 4) as nat))[i % 4])
}

/// Derives the eight-byte key of a name: eight keystream bytes from the generator
/// that the name's seed starts.
pub fn create_key(name: &str) -> (r: [u8; 8])
    ensures
        r@ == int31_stream(mt_seeded(name_seed(name)), 8),
{
    let hash = crate::hash::xxhash::calculate_hash_str(name, false);
    let mut rng = Mt19937GenRand32::new(hash);
    let mut key: [u8; 8] = [0u8; 8];
    next_bytes(&mut rng, &mut key);
    key
}

/// Derives an archive password: `length * 3 / 4` keystream bytes from the
/// generator that `key` seeds, in padded standard base64. A `length` that is a
/// multiple of 4 gives exactly `length` characters.
pub fn create_password(key: &str, length: usize) -> (r: String)
    requires
        length <= usize::MAX / 3,
    ensures
        r@ == base64_of(int31_stream(mt_seeded(name_seed(key)), (length * 3 / 4) as nat)),
        base64_decoded(r@) == Some(int31_stream(mt_seeded(name_seed(key)), (length * 3 / 4) as nat)),
        r@.len() == 4 * ((length * 3 / 4 + 2) / 3),
        forall|i: int| 0 <= i < r@.len() ==> base64_alphabet_char(#[trigger] r@[i]) || r@[i] == '=',
        length % 4 == 0 ==> r@.len() == length,
        length % 4 == 0 ==> forall|i: int| 0 <= i < r@.len() ==> base64_alphabet_char(#[trigger] r@[i]),
{
    let hash = crate::hash::xxhash::calculate_hash_str(key, false);
    let mut rng = Mt19937GenRand32::new(hash);
    let byte_length = length * 3 / 4;
    let mut bytes: Vec<u8> = vec![0u8; byte_length];
    next_bytes(&mut rng, bytes.as_mut_slice());
    let r = base64_encode(bytes.as_slice());
    assert(length % 4 == 0 ==> 4 * ((length * 3 / 4 + 2) / 3) == length) by (nonlinear_arith);
    assert(length % 4 == 0 ==> (length * 3 / 4) % 3 == 0) by (nonlinear_arith);
    r
}

/// XORs `bytes` in place with raw keystream words (little-endian, not shifted) from
/// the generator that `name` seeds; the last word is cut short. Applying it twice
/// with the same name gives the bytes back.
pub fn xor(name: &str, bytes: &mut [u8])
    ensures
        final(bytes)@ == xor_paired(old(bytes)@, word_stream(mt_seeded(name_seed(name)), old(bytes)@.len())),
{
    let hash = crate::hash::xxhash::calculate_hash_str(name, false);
    let mut mt = Mt19937GenRand32::new(hash);
    let ghost s0 = mt;
    let ghost before = bytes@;
    let n = bytes.len();
    let mut pos: usize = 0;
    let mut w: usize = 0;
    while pos < n
        invariant
            bytes@.len() == n,
            before.len() == n,
            pos <= n,
            pos < n ==> pos == 4 * w,
            mt == mt_skip(s0, w as nat),
            forall|j: int| 0 <= j < pos ==> #[trigger] bytes@[j] == before[j] ^ word_stream(s0, n as nat)[j],
            forall|j: int| pos <= j < n ==> #[trigger] bytes@[j] == before[j],
        decreases n - pos,
    {
        let word = mt.next_u32();
        proof {
            lemma_mt_skip_step(s0, w as nat);
        }
        let key = u32_to_le(word);
        let take: usize = if n - pos < 4 { n - pos } else { 4 };
        let mut j: usize = 0;
        while j < take
            invariant
                bytes@.len() == n,
                before.len() == n,
                take <= 4,
                pos + take <= n,
                pos == 4 * w,
                j <= take,
                key@ == u32_le(mt_word(s0, w as nat)),
                forall|k: int| 0 <= k < pos + j ==> #[trigger] bytes@[k] == before[k] ^ word_stream(s0, n as nat)[k],
                forall|k: int| pos + j <= k < n ==> #[trigger] bytes@[k] == before[k],
            decreases take - j,
        {
            bytes[pos + j] = bytes[pos + j] ^ key[j];
            assert((pos + j) as int / 4 == w as int && (pos + j) as int % 4 == j as int) by (nonlinear_arith)
                requires
                    pos == 4 * w,
                    j < 4,
            ;
            j = j + 1;
        }
        pos = pos + take;
        w = w + 1;
    }
    assert(bytes@ =~= xor_paired(before, word_stream(s0, n as nat)));
}

/// `value` with its little-endian bytes cyclically XOR-ed with `key`.
pub fn decrypt_i32(value: i32, key: &[u8]) -> (r: i32)
    ensures
        r == xor_word32(value as u32, key@) as i32,
{
    xor_int32(value, key)
}

/// `value` with its little-endian bytes cyclically XOR-ed with `key`.
pub fn decrypt_i64(value: i64, key: &[u8]) -> (r: i64)
    ensures
        r == xor_word64(value as u64, key@) as i64,
{
    xor_int64(value, key)
}

/// `value` with its little-endian bytes cyclically XOR-ed with `key`.
pub fn decrypt_u32(value: u32, key: &[u8]) -> (r: u32)
    ensures
        r == xor_word32(value, key@),
{
    xor_uint32(value, key)
}

/// `value` with its little-endian bytes cyclically XOR-ed with `key`.
pub fn decrypt_u64(value: u64, key: &[u8]) -> (r: u64)
    ensures
        r == xor_word64(value, key@),
{
    xor_uint64(value, key)
}

/// Deciphers a string field: base64-decode, XOR with `key`, read as little-endian
/// UTF-16, or byte by byte as Latin-1 when the bytes are an odd number or not
/// valid UTF-16. The empty string stays empty; only invalid base64 is an error.
pub fn decrypt_string(value: &str, key: &[u8]) -> (r: Result<String, TableEncryptionError>)
    ensures
        value@.len() == 0 ==> (r is Ok && r->Ok_0@.len() == 0),
        value@.len() > 0 ==> (r is Ok <==> base64_decoded(value@) is Some),
        value@.len() > 0 && r is Ok ==> plain_string_of(base64_decoded(value@)->0, key@, r->Ok_0@),
        r is Err ==> r->Err_0 is Base64Decode,
{
    if value.is_empty() {
        return Ok(String::new());
    }
    convert_string(value, key)
}

/// Enciphers a string field: UTF-16 little-endian bytes, cyclic XOR with `key`,
/// padded standard base64. The empty string stays empty.
pub fn encrypt_string(value: &str, key: &[u8]) -> (r: String)
    requires
        value@.len() <= usize::MAX / 8,
    ensures
        value@.len() == 0 ==> r@.len() == 0,
        value@.len() > 0 ==> encrypt_string_post(value@, key@, r@),
        value@.len() > 0 ==> r@.len() == 4 * ((2 * utf16_of(value@).len() + 2) / 3),
        value@.len() > 0 ==> r@.len() > 0,
{
    proof {
        lemma_utf16_nonempty(value@);
    }
    if value.is_empty() {
        return String::new();
    }
    cipher_string(value, key)
}

/// The float codecs' scale factor for a key whose first byte is `key_byte`:
/// `key_byte mod 10` (7 when that is 0 or 1), negated when `key_byte` is odd.
pub fn calculate_multiplier(key_byte: u8) -> (r: i32)
    ensures
        r == modulus_of(key_byte),
        r != 0,
{
    let q = (key_byte / 5) & 0xFE;
    assert(q <= 50 && 5 * q <= key_byte && key_byte - 5 * q == key_byte % 10) by (bit_vector)
        requires
            q == (key_byte / 5) & 0xFE,
    ;
    let mod_value = key_byte - 5 * q;
    let multiplier = if mod_value >= 2 { mod_value } else { 7 };
    assert((key_byte & 1 != 0) == (key_byte % 2 == 1)) by (bit_vector);
    if (key_byte & 1) != 0 {
        -(multiplier as i32)
    } else {
        multiplier as i32
    }
}

} // verus!
