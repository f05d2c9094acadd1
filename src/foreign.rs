//! What the library takes from other crates and from the parts of std that vstd
//! leaves unspecified: each item states what it relies on, and nothing here is
//! proved.

use vstd::prelude::*;
use base64::Engine;
use md5::Digest;
use hmac::Mac;
use rand_mt::Mt19937GenRand32;

verus! {

// ---------------------------------------------------------------------------
// Mersenne twister (rand_mt)

#[verifier::external_type_specification]
#[verifier::external_body]
pub struct ExMt19937GenRand32(Mt19937GenRand32);

/// The generator state that `Mt19937GenRand32::new(seed)` builds.
pub uninterp spec fn mt_seeded(seed: u32) -> Mt19937GenRand32;

/// The word that `next_u32` returns from a generator in state `s`.
pub uninterp spec fn mt_output(s: Mt19937GenRand32) -> u32;

/// The state that `next_u32` leaves a generator in state `s` in.
pub uninterp spec fn mt_advanced(s: Mt19937GenRand32) -> Mt19937GenRand32;

/// Relies on rand_mt's `Mt19937GenRand32::new`: the state depends on the seed alone.
pub assume_specification[ Mt19937GenRand32::new ](seed: u32) -> (r: Mt19937GenRand32)
    ensures
        r == mt_seeded(seed),
;

/// Relies on rand_mt's `Mt19937GenRand32::next_u32`: the word and the next state
/// depend on the current state alone.
pub assume_specification[ Mt19937GenRand32::next_u32 ](s: &mut Mt19937GenRand32) -> (r: u32)
    ensures
        r == mt_output(*old(s)),
        *final(s) == mt_advanced(*old(s)),
;

// ---------------------------------------------------------------------------
// Checksums and digests

/// The standard CRC-32 (polynomial 0x04C11DB7, reflected) of a byte sequence.
pub uninterp spec fn crc32_of(b: Seq<u8>) -> u32;

/// Relies on crc32fast's `hash`: the CRC-32 of the buffer.
pub assume_specification[ crc32fast::hash ](buf: &[u8]) -> (r: u32)
    ensures
        r == crc32_of(buf@),
;

/// xxHash32 of `b` under `seed`.
pub uninterp spec fn xxh32_of(b: Seq<u8>, seed: u32) -> u32;

/// Relies on xxhash_rust's `xxh32::xxh32`: the 32-bit xxHash of the input.
pub assume_specification[ xxhash_rust::xxh32::xxh32 ](input: &[u8], seed: u32) -> (r: u32)
    ensures
        r == xxh32_of(input@, seed),
;

/// xxHash64 of `b` under `seed`.
pub uninterp spec fn xxh64_of(b: Seq<u8>, seed: u64) -> u64;

/// Relies on xxhash_rust's `xxh64::xxh64`: the 64-bit xxHash of the input.
pub assume_specification[ xxhash_rust::xxh64::xxh64 ](input: &[u8], seed: u64) -> (r: u64)
    ensures
        r == xxh64_of(input@, seed),
;

/// The MD5 digest of `b`.
pub uninterp spec fn md5_of(b: Seq<u8>) -> Seq<u8>;

/// Relies on md-5's `Md5::digest`: the 16-byte MD5 digest of the input.
#[verifier::external_body]
pub(crate) fn md5_digest(source: &[u8]) -> (r: [u8; 16])
    ensures
        r@ == md5_of(source@),
{
    md5::Md5::digest(source).into()
}

/// HMAC-MD5 of `msg` under `key`.
pub uninterp spec fn hmac_md5_of(key: Seq<u8>, msg: Seq<u8>) -> Seq<u8>;

/// Relies on hmac's `Hmac<Md5>`: `new_from_slice` takes a key of any length (it
/// never fails), `update` absorbs the message and `finalize` yields the 16-byte tag.
#[verifier::external_body]
pub(crate) fn hmac_md5(key: &[u8], msg: &[u8]) -> (r: [u8; 16])
    ensures
        r@ == hmac_md5_of(key@, msg@),
{
    let mut mac = <hmac::Hmac<md5::Md5> as Mac>::new_from_slice(key).expect("any key length");
    mac.update(msg);
    mac.finalize().into_bytes().into()
}

// ---------------------------------------------------------------------------
// Base64 (standard alphabet, padded)

#[verifier::external_type_specification]
#[verifier::external_body]
pub struct ExDecodeError(base64::DecodeError);

/// A character of the standard base64 alphabet (`A-Z`, `a-z`, `0-9`, `+`, `/`).
pub open spec fn base64_alphabet_char(c: char) -> bool {
    ('A' <= c <= 'Z') || ('a' <= c <= 'z') || ('0' <= c <= '9') || c == '+' || c == '/'
}

/// The padded standard base64 text of `b`.
pub uninterp spec fn base64_of(b: Seq<u8>) -> Seq<char>;

/// The bytes that padded standard base64 text `s` stands for, if it is valid.
pub uninterp spec fn base64_decoded(s: Seq<char>) -> Option<Seq<u8>>;

/// Relies on base64's `STANDARD.encode`: four characters for each started group of
/// three bytes (`encoded_len` with padding), which panics only when that length
/// overflows `usize`; the characters come from the standard alphabet, with `=`
/// padding only after a last group of one or two bytes; `STANDARD.decode` turns the
/// text back into the input.
#[verifier::external_body]
pub(crate) fn base64_encode(b: &[u8]) -> (r: String)
    requires
        b@.len() <= usize::MAX / 2,
    ensures
        r@ == base64_of(b@),
        r@.len() == 4 * ((b@.len() + 2) / 3),
        base64_decoded(r@) == Some(b@),
        forall|i: int| 0 <= i < r@.len() ==> base64_alphabet_char(#[trigger] r@[i]) || r@[i] == '=',
        b@.len() % 3 == 0 ==> forall|i: int| 0 <= i < r@.len() ==> #[trigger] r@[i] != '=',
{
    base64::engine::general_purpose::STANDARD.encode(b)
}

/// Relies on base64's `STANDARD.decode`: the bytes of valid padded text, an error
/// otherwise.
#[verifier::external_body]
pub(crate) fn base64_decode(s: &str) -> (r: Result<Vec<u8>, base64::DecodeError>)
    ensures
        r is Ok ==> base64_decoded(s@) == Some(r->Ok_0@),
        r is Err ==> base64_decoded(s@) is None,
{
    base64::engine::general_purpose::STANDARD.decode(s.as_bytes())
}

// ---------------------------------------------------------------------------
// std: strings

#[verifier::external_type_specification]
#[verifier::external_body]
pub struct ExFromUtf16Error(std::string::FromUtf16Error);

/// The UTF-16 code units of one character.
pub open spec fn utf16_of_char(c: char) -> Seq<u16> {
    let v = c as u32;
    if v < 0x10000 {
        seq![v as u16]
    } else {
        seq![(0xD800 + ((v - 0x10000) as u32 >> 10)) as u16, (0xDC00 + ((v - 0x10000) as u32 & 0x3FF)) as u16]
    }
}

/// The UTF-16 code units of a character sequence.
pub open spec fn utf16_of(s: Seq<char>) -> Seq<u16>
    decreases s.len(),
{
    if s.len() == 0 {
        seq![]
    } else {
        utf16_of(s.drop_last()) + utf16_of_char(s.last())
    }
}

/// Relies on `str::encode_utf16`: the string's UTF-16 code units, in order.
#[verifier::external_body]
pub(crate) fn encode_utf16(s: &str) -> (r: Vec<u16>)
    ensures
        r@ == utf16_of(s@),
{
    s.encode_utf16().collect()
}

/// Relies on `String::from_utf16`: the string whose UTF-16 form is `v`, an error
/// when `v` is not valid UTF-16 (UTF-16 encoding is one-to-one).
#[verifier::external_body]
pub(crate) fn string_from_utf16(v: &[u16]) -> (r: Result<String, std::string::FromUtf16Error>)
    ensures
        r is Ok ==> utf16_of(r->Ok_0@) == v@,
        forall|s: Seq<char>| #[trigger] utf16_of(s) == v@ ==> (r is Ok && r->Ok_0@ == s),
{
    String::from_utf16(v)
}

/// The lower-case form of a string, as Unicode defines it.
pub uninterp spec fn lower_of(s: Seq<char>) -> Seq<char>;

/// Relies on `str::to_lowercase`: the result depends on the characters alone, and
/// the empty string stays empty.
#[verifier::external_body]
pub(crate) fn to_lowercase(s: &str) -> (r: String)
    ensures
        r@ == lower_of(s@),
        s@.len() == 0 ==> r@.len() == 0,
{
    s.to_lowercase()
}

/// Relies on `String::push`: appends one character.
#[verifier::external_body]
pub(crate) fn push_char(s: &mut String, c: char)
    ensures
        final(s)@ == old(s)@.push(c),
{
    s.push(c)
}

} // verus!
