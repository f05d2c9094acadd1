//! The table cipher: key derivation from names, the integer codecs with their
//! zero-preserving variants, and the string codec.

use vstd::prelude::*;
use vstd::string::StringSliceAdditionalSpecFns;
use rand_mt::Mt19937GenRand32;
use crate::crypto::xor::{xor_cycled, xor_paired, lemma_xor_cycled_involution};
use crate::error::TableEncryptionError;
use crate::foreign::{
    base64_alphabet_char, base64_decode, base64_decoded, base64_encode, base64_of, encode_utf16, mt_seeded, push_char, string_from_utf16,
    utf16_of, utf16_of_char, xxh32_of,
};
use crate::math::endian::{
    lemma_u32_from_le_round_trip, lemma_u32_le_round_trip, lemma_u64_from_le_round_trip, lemma_u64_le_round_trip,
    u32_from_le, u32_le, u32_of_le, u32_to_le, u64_from_le, u64_le, u64_of_le, u64_to_le,
};
use crate::math::mersenne::{int31_stream, mt_skip, mt_word, words_for, lemma_mt_skip_step};

verus! {

/// Fills `buf` from `rng`: each word, shifted right by one bit, supplies four
/// little-endian bytes; a trailing partial group takes the low bytes of one more word.
pub fn next_bytes(rng: &mut Mt19937GenRand32, buf: &mut [u8])
    ensures
        final(buf)@ == int31_stream(*old(rng), old(buf)@.len()),
        *final(rng) == mt_skip(*old(rng), words_for(old(buf)@.len())),
{
    let ghost s0 = *rng;
    let n = buf.len();
    let mut pos: usize = 0;
    let mut w: usize = 0;
    while pos < n
        invariant
            buf@.len() == n,
            pos <= n,
            pos < n ==> pos == 4 * w,
            w == (pos + 3) / 4,
            *rng == mt_skip(s0, w as nat),
            forall|j: int| 0 <= j < pos ==> #[trigger] buf@[j] == int31_stream(s0, n as nat)[j],
        decreases n - pos,
    {
        let word = rng.next_u32() >> 1;
        proof {
            lemma_mt_skip_step(s0, w as nat);
        }
        let bytes = u32_to_le(word);
        let take: usize = if n - pos < 4 { n - pos } else { 4 };
        let mut j: usize = 0;
        while j < take
            invariant
                buf@.len() == n,
                take <= 4,
                pos + take <= n,
                pos == 4 * w,
                j <= take,
                bytes@ == u32_le(mt_word(s0, w as nat) >> 1),
                forall|k: int| 0 <= k < pos + j ==> #[trigger] buf@[k] == int31_stream(s0, n as nat)[k],
            decreases take - j,
        {
            buf[pos + j] = bytes[j];
            assert((pos + j) as int / 4 == w as int && (pos + j) as int % 4 == j as int) by (nonlinear_arith)
                requires
                    pos == 4 * w,
                    j < 4,
            ;
            j = j + 1;
        }
        pos = pos + take;
        w = w + 1;
        assert(w == (pos + 3) / 4) by (nonlinear_arith)
            requires
                w >= 1,
                pos == 4 * (w - 1) + take,
                1 <= take <= 4,
        ;
    }
    assert(buf@ =~= int31_stream(s0, n as nat));
}


/// The scale sign and factor that the float codecs use for a key whose first byte is
/// `k0`: `k0 mod 10`, raised to 7 when that is 0 or 1, negated when `k0` is odd.
pub open spec fn modulus_of(k0: u8) -> i32 {
    let m: i32 = if k0 % 10 <= 1 { 7 } else { (k0 % 10) as i32 };
    if k0 % 2 == 1 { (-m) as i32 } else { m }
}

/// The modulus of a key; an empty key has modulus 1.
pub open spec fn key_modulus(key: Seq<u8>) -> i32 {
    if key.len() == 0 { 1 } else { modulus_of(key[0]) }
}

/// `v` with its little-endian bytes cyclically XOR-ed with `key`.
pub open spec fn xor_word32(v: u32, key: Seq<u8>) -> u32 {
    u32_from_le(xor_cycled(u32_le(v), key))
}

/// `v` with its little-endian bytes cyclically XOR-ed with `key`.
pub open spec fn xor_word64(v: u64, key: Seq<u8>) -> u64 {
    u64_from_le(xor_cycled(u64_le(v), key))
}

/// The keystream generator state that a name seeds: xxHash32 (seed 0) of its bytes.
pub open spec fn name_state(name: Seq<u8>) -> Mt19937GenRand32 {
    mt_seeded(xxh32_of(name, 0))
}

/// The key that a name derives: eight keystream bytes.
pub open spec fn name_key(name: Seq<u8>) -> Seq<u8> {
    int31_stream(name_state(name), 8)
}

/// The modulus of a key, never zero: `key[0] mod 10` (7 when that is 0 or 1),
/// negated for an odd `key[0]`; 1 for an empty key.
pub fn calculate_modulus(key: &[u8]) -> (r: i32)
    ensures
        r == key_modulus(key@),
        r != 0,
{
    if key.len() == 0 {
        return 1;
    }
    let mut modulus: i32 = (key[0] % 10) as i32;
    if modulus <= 1 {
        modulus = 7;
    }
    if key[0] & 1 != 0 {
        modulus = -modulus;
    }
    let k0 = key[0];
    assert((k0 & 1 != 0) == (k0 % 2 == 1)) by (bit_vector);
    modulus
}

/// Pairwise XOR over the shorter of `value` and `key`.
pub fn xor_str(value: &[u8], key: &[u8]) -> (r: Vec<u8>)
    ensures
        r@ == xor_paired(value@, key@),
{
    crate::crypto::xor::xor_exact(value, key)
}

/// Cyclic XOR of `value` with `key`; an empty key leaves `value` as it is.
pub fn xor_bytes(value: &[u8], key: &[u8]) -> (r: Vec<u8>)
    ensures
        r@ == xor_cycled(value@, key@),
{
    let mut out: Vec<u8> = Vec::with_capacity(value.len());
    let mut i: usize = 0;
    while i < value.len()
        invariant
            i <= value@.len(),
            out@.len() == i,
            forall|j: int| 0 <= j < i ==> #[trigger] out@[j] == xor_cycled(value@, key@)[j],
        decreases value@.len() - i,
    {
        if key.len() == 0 {
            out.push(value[i]);
        } else {
            out.push(value[i] ^ key[i % key.len()]);
        }
        i = i + 1;
    }
    assert(out@ =~= xor_cycled(value@, key@));
    out
}

/// Cyclic XOR of `data` with `key`, in place; an empty key changes nothing.
pub fn xor_inplace(data: &mut [u8], key: &[u8])
    ensures
        final(data)@ == xor_cycled(old(data)@, key@),
{
    crate::crypto::xor::xor_inplace(data, key);
}

/// Enciphers or deciphers a table row: `data` XOR-ed with as many keystream bytes
/// as it has, drawn from the generator that `name` seeds. Applying it twice with
/// the same name gives `data` back.
pub fn xor(name: &str, data: &[u8]) -> (r: Vec<u8>)
    ensures
        r@ == xor_cycled(int31_stream(name_state(name.spec_bytes()), data@.len() as nat), data@),
{
    let seed: u32 = xxhash_rust::xxh32::xxh32(name.as_bytes(), 0);
    let mut rng = Mt19937GenRand32::new(seed);
    let mut result: Vec<u8> = vec![0u8; data.len()];
    next_bytes(&mut rng, result.as_mut_slice());
    xor_inplace(result.as_mut_slice(), data);
    result
}

/// Applying the row cipher twice with the same name gives the row back.
pub proof fn lemma_row_cipher_involution(name: Seq<u8>, data: Seq<u8>)
    ensures
        ({
            let ks = int31_stream(name_state(name), data.len());
            let once = xor_cycled(ks, data);
            xor_cycled(ks, once) == data
        }),
{
    let ks = int31_stream(name_state(name), data.len());
    let once = xor_cycled(ks, data);
    if data.len() > 0 {
        assert forall|i: int| 0 <= i < data.len() implies #[trigger] xor_cycled(ks, once)[i] == data[i] by {
            assert(i % (data.len() as int) == i) by (nonlinear_arith)
                requires
                    0 <= i < data.len(),
            ;
            let (a, d) = (ks[i], data[i]);
            assert(a ^ (a ^ d) == d) by (bit_vector);
        }
    }
    assert(xor_cycled(ks, once) =~= data);
}

/// `value` with its little-endian bytes cyclically XOR-ed with `key`.
pub fn xor_int32(value: i32, key: &[u8]) -> (r: i32)
    ensures
        r == xor_word32(value as u32, key@) as i32,
{
    let mut bytes = u32_to_le(value as u32);
    xor_inplace(&mut bytes, key);
    u32_of_le(&bytes) as i32
}

/// `value` with its little-endian bytes cyclically XOR-ed with `key`.
pub fn xor_int64(value: i64, key: &[u8]) -> (r: i64)
    ensures
        r == xor_word64(value as u64, key@) as i64,
{
    let mut bytes = u64_to_le(value as u64);
    xor_inplace(&mut bytes, key);
    u64_of_le(&bytes) as i64
}

/// `value` with its little-endian bytes cyclically XOR-ed with `key`.
pub fn xor_uint32(value: u32, key: &[u8]) -> (r: u32)
    ensures
        r == xor_word32(value, key@),
{
    let mut bytes = u32_to_le(value);
    xor_inplace(&mut bytes, key);
    u32_of_le(&bytes)
}

/// `value` with its little-endian bytes cyclically XOR-ed with `key`.
pub fn xor_uint64(value: u64, key: &[u8]) -> (r: u64)
    ensures
        r == xor_word64(value, key@),
{
    let mut bytes = u64_to_le(value);
    xor_inplace(&mut bytes, key);
    u64_of_le(&bytes)
}

/// The 32-bit codec leaves 0 as 0 and ciphers anything else.
pub fn convert_int(value: i32, key: &[u8]) -> (r: i32)
    ensures
        r == if value == 0 { 0 } else { xor_word32(value as u32, key@) as i32 },
{
    if value != 0 { xor_int32(value, key) } else { 0 }
}

/// The 64-bit codec leaves 0 as 0 and ciphers anything else.
pub fn convert_long(value: i64, key: &[u8]) -> (r: i64)
    ensures
        r == if value == 0 { 0 } else { xor_word64(value as u64, key@) as i64 },
{
    if value != 0 { xor_int64(value, key) } else { 0 }
}

/// The unsigned 32-bit codec leaves 0 as 0 and ciphers anything else.
pub fn convert_uint(value: u32, key: &[u8]) -> (r: u32)
    ensures
        r == if value == 0 { 0 } else { xor_word32(value, key@) },
{
    if value != 0 { xor_uint32(value, key) } else { 0 }
}

/// The unsigned 64-bit codec leaves 0 as 0 and ciphers anything else.
pub fn convert_ulong(value: u64, key: &[u8]) -> (r: u64)
    ensures
        r == if value == 0 { 0 } else { xor_word64(value, key@) },
{
    if value != 0 { xor_uint64(value, key) } else { 0 }
}

/// Ciphering a 32-bit value twice with the same key gives it back.
pub proof fn lemma_xor_word32_involution(v: u32, key: Seq<u8>)
    ensures
        xor_word32(xor_word32(v, key), key) == v,
{
    let b = xor_cycled(u32_le(v), key);
    assert(b.len() == 4);
    lemma_u32_from_le_round_trip(b);
    lemma_xor_cycled_involution(u32_le(v), key);
    lemma_u32_le_round_trip(v);
}

/// Ciphering a 64-bit value twice with the same key gives it back.
pub proof fn lemma_xor_word64_involution(v: u64, key: Seq<u8>)
    ensures
        xor_word64(xor_word64(v, key), key) == v,
{
    let b = xor_cycled(u64_le(v), key);
    assert(b.len() == 8);
    lemma_u64_from_le_round_trip(b);
    lemma_xor_cycled_involution(u64_le(v), key);
    lemma_u64_le_round_trip(v);
}

/// The integer codecs undo themselves: for every key and every value of each width,
/// `xor_int32`, `xor_int64`, `xor_uint32` and `xor_uint64` applied twice give the value back.
pub proof fn lemma_int_codecs_round_trip(a: i32, b: i64, c: u32, d: u64, key: Seq<u8>)
    ensures
        xor_word32(xor_word32(a as u32, key) as i32 as u32, key) as i32 == a,
        xor_word64(xor_word64(b as u64, key) as i64 as u64, key) as i64 == b,
        xor_word32(xor_word32(c, key), key) == c,
        xor_word64(xor_word64(d, key), key) == d,
{
    let x = xor_word32(a as u32, key);
    assert(x as i32 as u32 == x) by (bit_vector);
    lemma_xor_word32_involution(a as u32, key);
    assert(a as u32 as i32 == a) by (bit_vector);
    let y = xor_word64(b as u64, key);
    assert(y as i64 as u64 == y) by (bit_vector);
    lemma_xor_word64_involution(b as u64, key);
    assert(b as u64 as i64 == b) by (bit_vector);
    lemma_xor_word32_involution(c, key);
    lemma_xor_word64_involution(d, key);
}

/// Derives the eight-byte key of a name given as bytes.
pub fn create_key(bytes: &[u8]) -> (r: [u8; 8])
    ensures
        r@ == name_key(bytes@),
{
    let seed: u32 = xxhash_rust::xxh32::xxh32(bytes, 0);
    let mut rng = Mt19937GenRand32::new(seed);
    let mut buf: [u8; 8] = [0u8; 8];
    next_bytes(&mut rng, &mut buf);
    buf
}


/// The little-endian bytes of a sequence of UTF-16 code units.
pub open spec fn u16s_le(u: Seq<u16>) -> Seq<u8> {
    Seq::new(2 * u.len(), |i: int| if i % 2 == 0 { (u[i / 2] & 0xff) as u8 } else { (u[i / 2] >> 8) as u8 })
}

/// The code units that consecutive little-endian byte pairs form; an odd last byte
/// is left out.
pub open spec fn u16s_from_le(b: Seq<u8>) -> Seq<u16> {
    Seq::new(b.len() / 2, |i: int| (b[2 * i] as u16) | ((b[2 * i + 1] as u16) << 8))
}

/// Each byte read as the character of the same number (Latin-1).
pub open spec fn latin1_of(b: Seq<u8>) -> Seq<char> {
    Seq::new(b.len(), |i: int| b[i] as char)
}

/// `out` is the ciphertext of `value` under `key`: its UTF-16 code units laid out
/// little-endian, cyclically XOR-ed with the key, then base64 (standard, padded).
pub open spec fn encrypt_string_post(value: Seq<char>, key: Seq<u8>, out: Seq<char>) -> bool {
    let raw = xor_cycled(u16s_le(utf16_of(value)), key);
    out == base64_of(raw) && base64_decoded(out) == Some(raw)
}

/// `out` is the plaintext of the base64-decoded bytes `b` under `key`: the bytes
/// XOR-ed with the key, read as UTF-16 when they are an even number of bytes that
/// form valid UTF-16, else read byte by byte as Latin-1.
pub open spec fn plain_string_of(b: Seq<u8>, key: Seq<u8>, out: Seq<char>) -> bool {
    let raw = xor_cycled(b, key);
    let units = u16s_from_le(raw);
    if raw.len() % 2 == 0 && exists|s: Seq<char>| #[trigger] utf16_of(s) == units {
        utf16_of(out) == units && forall|s: Seq<char>| #[trigger] utf16_of(s) == units ==> out == s
    } else {
        out == latin1_of(raw)
    }
}

/// A character takes one or two UTF-16 code units.
proof fn lemma_utf16_len(s: Seq<char>)
    ensures
        utf16_of(s).len() <= 2 * s.len(),
    decreases s.len(),
{
    if s.len() > 0 {
        lemma_utf16_len(s.drop_last());
    }
}

/// The little-endian bytes of code units read back as the same code units.
pub proof fn lemma_u16s_le_round_trip(u: Seq<u16>)
    ensures
        u16s_from_le(u16s_le(u)) == u,
{
    let b = u16s_le(u);
    assert forall|i: int| 0 <= i < u.len() implies #[trigger] u16s_from_le(b)[i] == u[i] by {
        assert((2 * i) / 2 == i && (2 * i) % 2 == 0 && (2 * i + 1) / 2 == i && (2 * i + 1) % 2 == 1) by (nonlinear_arith);
        let x = u[i];
        assert((((x & 0xff) as u8) as u16) | ((((x >> 8) as u8) as u16) << 8) == x) by (bit_vector);
    }
    assert(u16s_from_le(b) =~= u);
}

/// The little-endian bytes of UTF-16 code units.
fn utf16_le_bytes(units: &Vec<u16>) -> (r: Vec<u8>)
    requires
        units@.len() <= usize::MAX / 2,
    ensures
        r@ == u16s_le(units@),
{
    let mut out: Vec<u8> = Vec::with_capacity(units.len() * 2);
    let mut i: usize = 0;
    while i < units.len()
        invariant
            i <= units@.len(),
            units@.len() <= usize::MAX / 2,
            out@.len() == 2 * i,
            forall|j: int| 0 <= j < 2 * i ==> #[trigger] out@[j] == u16s_le(units@)[j],
        decreases units@.len() - i,
    {
        let u = units[i];
        out.push((u & 0xff) as u8);
        out.push((u >> 8) as u8);
        assert((2 * i) as int / 2 == i && (2 * i) as int % 2 == 0 && (2 * i + 1) as int / 2 == i && (2 * i + 1) as int % 2 == 1) by (nonlinear_arith);
        i = i + 1;
    }
    assert(out@ =~= u16s_le(units@));
    out
}

/// The code units that consecutive little-endian byte pairs of `b` form.
fn le_units(b: &Vec<u8>) -> (r: Vec<u16>)
    ensures
        r@ == u16s_from_le(b@),
{
    let len = b.len();
    let n = len / 2;
    let mut out: Vec<u16> = Vec::with_capacity(n);
    let mut i: usize = 0;
    while i < n
        invariant
            len == b@.len(),
            n == len / 2,
            i <= n,
            out@.len() == i,
            forall|j: int| 0 <= j < i ==> #[trigger] out@[j] == u16s_from_le(b@)[j],
        decreases n - i,
    {
        assert(2 * i + 1 < b@.len()) by (nonlinear_arith)
            requires
                i < n,
                n == len / 2,
                len == b@.len(),
        ;
        out.push((b[2 * i] as u16) | ((b[2 * i + 1] as u16) << 8));
        i = i + 1;
    }
    assert(out@ =~= u16s_from_le(b@));
    out
}

/// Each byte as the Latin-1 character of the same number.
fn latin1_string(b: &Vec<u8>) -> (r: String)
    ensures
        r@ == latin1_of(b@),
{
    let mut out = String::new();
    let mut i: usize = 0;
    while i < b.len()
        invariant
            i <= b@.len(),
            out@ =~= latin1_of(b@).subrange(0, i as int),
        decreases b@.len() - i,
    {
        push_char(&mut out, b[i] as char);
        i = i + 1;
    }
    out
}

/// The ciphertext of a string: UTF-16 little-endian bytes, cyclic XOR with `key`,
/// base64. The empty string stays empty.
pub(crate) fn cipher_string(value: &str, key: &[u8]) -> (r: String)
    requires
        value@.len() <= usize::MAX / 8,
    ensures
        encrypt_string_post(value@, key@, r@),
        r@.len() == 4 * ((2 * utf16_of(value@).len() + 2) / 3),
{
    let units = encode_utf16(value);
    proof {
        lemma_utf16_len(value@);
    }
    let mut raw = utf16_le_bytes(&units);
    xor_inplace(raw.as_mut_slice(), key);
    assert(raw@.len() == 2 * utf16_of(value@).len());
    base64_encode(raw.as_slice())
}

/// A nonempty string has at least one UTF-16 code unit.
pub proof fn lemma_utf16_nonempty(s: Seq<char>)
    ensures
        s.len() > 0 ==> utf16_of(s).len() > 0,
{
    if s.len() > 0 {
        assert(utf16_of(s) == utf16_of(s.drop_last()) + utf16_of_char(s.last()));
    }
}

/// Deciphers a string field: base64-decodes `value`, XORs with `key`, and reads the
/// bytes as UTF-16 little-endian, or as Latin-1 when they are an odd number or not
/// valid UTF-16. Fails only when `value` is not valid base64.
pub fn convert_string(value: &str, key: &[u8]) -> (r: Result<String, TableEncryptionError>)
    ensures
        r is Ok <==> base64_decoded(value@) is Some,
        r is Ok ==> plain_string_of(base64_decoded(value@)->0, key@, r->Ok_0@),
        r is Err ==> r->Err_0 is Base64Decode,
{
    let mut raw = match base64_decode(value) {
        Ok(v) => v,
        Err(e) => return Err(TableEncryptionError::Base64Decode(e)),
    };
    let ghost decoded = raw@;
    xor_inplace(raw.as_mut_slice(), key);
    if raw.len() % 2 == 0 {
        let units = le_units(&raw);
        match string_from_utf16(units.as_slice()) {
            Ok(s) => return Ok(s),
            Err(_) => {},
        }
    }
    Ok(latin1_string(&raw))
}

/// Enciphers a string field of at least 8 UTF-16 code units; shorter strings are
/// returned unchanged. Never fails.
pub fn new_encrypt_string(value: &str, key: &[u8]) -> (r: Result<String, TableEncryptionError>)
    requires
        value@.len() <= usize::MAX / 8,
    ensures
        r is Ok,
        utf16_of(value@).len() < 8 ==> r->Ok_0@ == value@,
        utf16_of(value@).len() >= 8 ==> encrypt_string_post(value@, key@, r->Ok_0@),
{
    if encode_utf16(value).len() < 8 {
        return Ok(value.to_owned());
    }
    Ok(cipher_string(value, key))
}

/// The string codec undoes itself: for every string and key, deciphering the
/// ciphertext of `s` gives `s` back.
pub proof fn lemma_string_codec_round_trip(s: Seq<char>, key: Seq<u8>, cipher: Seq<char>, out: Seq<char>)
    requires
        encrypt_string_post(s, key, cipher),
        plain_string_of(base64_decoded(cipher)->0, key, out),
    ensures
        out == s,
{
    let bytes = u16s_le(utf16_of(s));
    lemma_xor_cycled_involution(bytes, key);
    lemma_u16s_le_round_trip(utf16_of(s));
    let raw = xor_cycled(base64_decoded(cipher)->0, key);
    assert(raw == bytes);
    assert(raw.len() % 2 == 0) by (nonlinear_arith)
        requires
            raw.len() == 2 * utf16_of(s).len(),
    ;
    assert(utf16_of(s) == u16s_from_le(raw));
}

/// The password of a table archive called `filename`: fifteen keystream bytes from
/// the generator that the name seeds, as twenty base64 characters without padding.
pub fn archive_password(filename: &[u8]) -> (r: String)
    ensures
        r@ == base64_of(int31_stream(name_state(filename@), 15)),
        base64_decoded(r@) == Some(int31_stream(name_state(filename@), 15)),
        r@.len() == 20,
        forall|i: int| 0 <= i < r@.len() ==> base64_alphabet_char(#[trigger] r@[i]),
{
    let seed: u32 = xxhash_rust::xxh32::xxh32(filename, 0);
    let mut rng = Mt19937GenRand32::new(seed);
    let mut buf: [u8; 15] = [0u8; 15];
    next_bytes(&mut rng, &mut buf);
    base64_encode(&buf)
}

/// Whether the table cipher is applied; when it is off, conversions pass values
/// through unchanged. Off unless set.
pub struct EncryptionToggle {
    pub enabled: bool,
}

impl EncryptionToggle {
    /// A toggle in its default, disabled state.
    pub fn new() -> (r: Self)
        ensures
            !r.enabled,
    {
        EncryptionToggle { enabled: false }
    }

    /// Whether the cipher is applied.
    pub fn use_encryption(&self) -> (r: bool)
        ensures
            r == self.enabled,
    {
        self.enabled
    }

    /// Turns the cipher on or off; the last write wins.
    pub fn set_use_encryption(&mut self, enabled: bool)
        ensures
            final(self).enabled == enabled,
    {
        self.enabled = enabled;
    }

    /// `convert_int` when the cipher is on, the value itself when it is off.
    pub fn convert_int(&self, value: i32, key: &[u8]) -> (r: i32)
        ensures
            r == if self.enabled && value != 0 { xor_word32(value as u32, key@) as i32 } else { value },
    {
        if self.enabled { convert_int(value, key) } else { value }
    }

    /// `convert_long` when the cipher is on, the value itself when it is off.
    pub fn convert_long(&self, value: i64, key: &[u8]) -> (r: i64)
        ensures
            r == if self.enabled && value != 0 { xor_word64(value as u64, key@) as i64 } else { value },
    {
        if self.enabled { convert_long(value, key) } else { value }
    }

    /// `convert_uint` when the cipher is on, the value itself when it is off.
    pub fn convert_uint(&self, value: u32, key: &[u8]) -> (r: u32)
        ensures
            r == if self.enabled && value != 0 { xor_word32(value, key@) } else { value },
    {
        if self.enabled { convert_uint(value, key) } else { value }
    }

    /// `convert_ulong` when the cipher is on, the value itself when it is off.
    pub fn convert_ulong(&self, value: u64, key: &[u8]) -> (r: u64)
        ensures
            r == if self.enabled && value != 0 { xor_word64(value, key@) } else { value },
    {
        if self.enabled { convert_ulong(value, key) } else { value }
    }

    /// `convert_string` when the cipher is on, a copy of the text when it is off.
    pub fn convert_string(&self, value: &str, key: &[u8]) -> (r: Result<String, TableEncryptionError>)
        ensures
            !self.enabled ==> (r is Ok && r->Ok_0@ == value@),
            self.enabled ==> (r is Ok <==> base64_decoded(value@) is Some),
            self.enabled && r is Ok ==> plain_string_of(base64_decoded(value@)->0, key@, r->Ok_0@),
    {
        if self.enabled { convert_string(value, key) } else { Ok(value.to_owned()) }
    }
}

} // verus!
