use vstd::prelude::*;
use crate::error::HashError;
use crate::foreign::crc32_of;
use crate::math::endian::{bytes_to_vec, u32_be, u32_from_be};

verus! {

/// The CRC-32 generator polynomial with its `x^32` term.
pub const POLY_NORMAL: u64 = 0x104C11DB7;

/// Degree of the generator polynomial.
pub const POLY_DEGREE: u64 = 32;

/// The inverse of `x^32` modulo the generator polynomial.
pub const GF2_INVERSE_X32: u64 = 0xCBF1ACDA;

/// `v·x` reduced modulo the generator polynomial: shift left, and subtract (XOR)
/// the generator when the `x^32` coefficient comes out set.
pub open spec fn times_x(v: u64) -> u64 {
    let s = (v << 1u64) as u64;
    if s >> 32u64 != 0 { s ^ POLY_NORMAL } else { s }
}

/// `a·x^j` reduced modulo the generator polynomial.
pub open spec fn times_x_pow(a: u64, j: u64) -> u64
    decreases j,
{
    if j == 0 { a } else { times_x(times_x_pow(a, (j - 1) as u64)) }
}

/// The sum (XOR) over the set bits `j < n` of `b` of `a·x^j mod P`.
pub open spec fn mulmod_upto(a: u64, b: u64, n: u64) -> u64
    decreases n,
{
    if n == 0 {
        0
    } else {
        mulmod_upto(a, b, (n - 1) as u64) ^ (if (b >> ((n - 1) as u64)) & 1 == 1 { times_x_pow(a, (n - 1) as u64) } else { 0 })
    }
}

/// The product of `a` and `b` in GF(2)[x] modulo the CRC-32 generator polynomial.
pub open spec fn gf2_mulmod(a: u64, b: u64) -> u64 {
    mulmod_upto(a, b, 64)
}

/// A byte with its bit order reversed.
pub open spec fn rev8(b: u8) -> u8 {
    (((b >> 7u8) & 1) | (((b >> 6u8) & 1) << 1u8) | (((b >> 5u8) & 1) << 2u8) | (((b >> 4u8) & 1) << 3u8)
        | (((b >> 3u8) & 1) << 4u8) | (((b >> 2u8) & 1) << 5u8) | (((b >> 1u8) & 1) << 6u8) | ((b & 1) << 7u8)) as u8
}

/// A word with its bit order reversed: bit `i` goes to bit `31 - i`.
pub open spec fn rev32(x: u32) -> u32 {
    ((rev8((x & 0xff) as u8) as u32) << 24u32) | ((rev8(((x >> 8u32) & 0xff) as u8) as u32) << 16u32)
        | ((rev8(((x >> 16u32) & 0xff) as u8) as u32) << 8u32) | (rev8((x >> 24u32) as u8) as u32)
}

/// The four bytes that steer a CRC-32 whose value over the data followed by four
/// zero bytes is `padded` to `target`: the difference, bit-reversed, multiplied by
/// the inverse of `x^32`, laid out big-endian with each byte bit-reversed.
pub open spec fn forge_patch(padded: u32, target: u32) -> Seq<u8> {
    let p = gf2_mulmod(rev32(target ^ padded) as u64, GF2_INVERSE_X32) as u32;
    u32_be(p).map_values(|b: u8| rev8(b))
}

/// The CRC-32 of `data` followed by four zero bytes: the checksum state at the
/// place where a patch goes.
pub open spec fn padded_crc(data: Seq<u8>) -> u32 {
    crc32_of(data + seq![0u8, 0u8, 0u8, 0u8])
}

/// The result of forging `data` to `target` when the arithmetic is confirmed: the
/// data itself when its CRC already matches, else the data with the patch appended.
pub open spec fn forged(data: Seq<u8>, target: u32) -> Seq<u8> {
    if crc32_of(data) == target {
        data
    } else {
        data + forge_patch(padded_crc(data), target)
    }
}

/// A byte with its bit order reversed.
pub fn reverse_byte(b: u8) -> (r: u8)
    ensures
        r == rev8(b),
{
    (((b >> 7) & 1) | (((b >> 6) & 1) << 1) | (((b >> 5) & 1) << 2) | (((b >> 4) & 1) << 3) | (((b >> 3) & 1) << 4)
        | (((b >> 2) & 1) << 5) | (((b >> 1) & 1) << 6) | ((b & 1) << 7)) as u8
}

/// A word with its bit order reversed.
pub fn reverse_word(x: u32) -> (r: u32)
    ensures
        r == rev32(x),
{
    ((reverse_byte((x & 0xff) as u8) as u32) << 24) | ((reverse_byte(((x >> 8) & 0xff) as u8) as u32) << 16)
        | ((reverse_byte(((x >> 16) & 0xff) as u8) as u32) << 8) | (reverse_byte((x >> 24) as u8) as u32)
}

proof fn lemma_mulmod_step(a: u64, b: u64, i: u64)
    requires
        i < 64,
    ensures
        mulmod_upto(a, b, (i + 1) as u64) == mulmod_upto(a, b, i) ^ (if (b >> i) & 1 == 1 { times_x_pow(a, i) } else { 0 }),
        times_x_pow(a, (i + 1) as u64) == times_x(times_x_pow(a, i)),
{
}

/// Bits at or above `i` of `b` add nothing once `b >> i` is zero.
proof fn lemma_mulmod_rest(a: u64, b: u64, i: u64, n: u64)
    requires
        i <= n <= 64,
        b >> i == 0,
    ensures
        mulmod_upto(a, b, n) == mulmod_upto(a, b, i),
    decreases n - i,
{
    if n > i {
        lemma_mulmod_rest(a, b, i, (n - 1) as u64);
        let m = (n - 1) as u64;
        assert((b >> m) & 1 == 0) by (bit_vector)
            requires
                b >> i == 0,
                i <= m < 64,
        ;
        let x = mulmod_upto(a, b, m);
        assert(x ^ 0 == x) by (bit_vector);
    }
}

/// Holds the file that forging works on.
pub struct CrcManipulator {
    pub file_path: String,
}

impl CrcManipulator {
    /// A manipulator for the file at `file_path`.
    pub fn new(file_path: &str) -> (r: Self)
        ensures
            r.file_path@ == file_path@,
    {
        CrcManipulator { file_path: file_path.to_owned() }
    }

    /// The product of `a` and `b` modulo the CRC-32 generator polynomial, for `a` of
    /// degree below 32.
    pub fn gf2_multiply_mod(a: u64, b: u64) -> (r: u64)
        requires
            a < 0x1_0000_0000,
        ensures
            r == gf2_mulmod(a, b),
            r < 0x1_0000_0000,
    {
        let ghost a0 = a;
        let ghost b0 = b;
        let mut a = a;
        let mut b = b;
        let mut result: u64 = 0;
        let mut i: u64 = 0;
        assert(b0 >> 0u64 == b0) by (bit_vector);
        while b != 0
            invariant
                i <= 64,
                b == b0 >> i,
                a == times_x_pow(a0, i),
                a < 0x1_0000_0000,
                result == mulmod_upto(a0, b0, i),
                result < 0x1_0000_0000,
            decreases 64 - i,
        {
            assert(i < 64) by (bit_vector)
                requires
                    b == b0 >> i,
                    b != 0,
            ;
            proof {
                lemma_mulmod_step(a0, b0, i);
            }
            let old_result = result;
            if b & 1 != 0 {
                result ^= a;
            }
            assert(result == old_result ^ (if (b0 >> i) & 1 == 1 { a } else { 0 }) && result < 0x1_0000_0000) by (bit_vector)
                requires
                    b == b0 >> i,
                    a < 0x1_0000_0000,
                    old_result < 0x1_0000_0000,
                    result == if b & 1 != 0 { old_result ^ a } else { old_result },
            ;
            b >>= 1;
            a <<= 1;
            if a >> POLY_DEGREE != 0 {
                a ^= POLY_NORMAL;
            }
            assert(b == b0 >> ((i + 1) as u64)) by (bit_vector)
                requires
                    b == (b0 >> i) >> 1,
                    i < 64,
            ;
            let ghost prev = times_x_pow(a0, i);
            assert(a == times_x(prev) && a < 0x1_0000_0000) by (bit_vector)
                requires
                    prev < 0x1_0000_0000,
                    a == if ((prev << 1u64) as u64) >> 32u64 != 0 { ((prev << 1u64) as u64) ^ 0x104C11DB7u64 } else { (prev << 1u64) as u64 },
                    times_x(prev) == if ((prev << 1u64) as u64) >> 32u64 != 0 { ((prev << 1u64) as u64) ^ 0x104C11DB7u64 } else { (prev << 1u64) as u64 },
            ;
            i = i + 1;
        }
        proof {
            lemma_mulmod_rest(a0, b0, i, 64);
        }
        result
    }

    /// The four bytes read as a big-endian word, bit-reversed, written back big-endian.
    pub fn reverse_bits(bytes: &[u8; 4]) -> (r: [u8; 4])
        ensures
            r@ == u32_be(rev32(u32_from_be(bytes@))),
    {
        let w = (bytes[3] as u32) | ((bytes[2] as u32) << 8) | ((bytes[1] as u32) << 16) | ((bytes[0] as u32) << 24);
        let v = reverse_word(w);
        let r = [((v >> 24) & 0xff) as u8, ((v >> 16) & 0xff) as u8, ((v >> 8) & 0xff) as u8, (v & 0xff) as u8];
        assert(r@ =~= u32_be(rev32(u32_from_be(bytes@))));
        r
    }

    /// The patch that steers a CRC-32 from `padded_crc` (the checksum of the data
    /// followed by four zero bytes) to `target_crc`.
    pub fn forge_bytes(padded_crc: u32, target_crc: u32) -> (r: [u8; 4])
        ensures
            r@ == forge_patch(padded_crc, target_crc),
    {
        let xor_result = target_crc ^ padded_crc;
        let k = reverse_word(xor_result) as u64;
        let p_value = Self::gf2_multiply_mod(k, GF2_INVERSE_X32) as u32;
        let r = [
            reverse_byte(((p_value >> 24) & 0xff) as u8),
            reverse_byte(((p_value >> 16) & 0xff) as u8),
            reverse_byte(((p_value >> 8) & 0xff) as u8),
            reverse_byte((p_value & 0xff) as u8),
        ];
        assert(r@ =~= forge_patch(padded_crc, target_crc));
        r
    }

    /// The patch to append to a file whose checksum is `current_crc`, and whose
    /// checksum with four zero bytes appended is `padded_crc`, so that it checksums
    /// to `target_crc`; `None` when the file already does.
    pub fn forge_patch(current_crc: u32, padded_crc: u32, target_crc: u32) -> (r: Option<[u8; 4]>)
        ensures
            current_crc == target_crc ==> r is None,
            current_crc != target_crc ==> (r is Some && r->Some_0@ == forge_patch(padded_crc, target_crc)),
    {
        if current_crc == target_crc {
            return None;
        }
        Some(Self::forge_bytes(padded_crc, target_crc))
    }

    /// Forges `data` to checksum `target_crc`: returns it unchanged when it already
    /// does, else with the four patch bytes appended once the new checksum is
    /// confirmed; a checksum that does not come out right is a `Mismatch`.
    pub fn forge_data(data: &[u8], target_crc: u32) -> (r: Result<Vec<u8>, HashError>)
        requires
            data@.len() <= usize::MAX - 4,
        ensures
            r is Ok <==> crc32_of(forged(data@, target_crc)) == target_crc,
            r is Ok ==> r->Ok_0@ == forged(data@, target_crc),
            r is Err ==> r->Err_0 == (HashError::Mismatch { expected: target_crc, actual: crc32_of(forged(data@, target_crc)) }),
    {
        let mut new_data: Vec<u8> = bytes_to_vec(data);
        if crc32fast::hash(data) == target_crc {
            return Ok(new_data);
        }
        let mut padded: Vec<u8> = bytes_to_vec(data);
        padded.push(0);
        padded.push(0);
        padded.push(0);
        padded.push(0);
        assert(padded@ =~= data@ + seq![0u8, 0u8, 0u8, 0u8]);
        let padded_crc = crc32fast::hash(padded.as_slice());
        let patch = Self::forge_bytes(padded_crc, target_crc);
        new_data.push(patch[0]);
        new_data.push(patch[1]);
        new_data.push(patch[2]);
        new_data.push(patch[3]);
        assert(new_data@ =~= forged(data@, target_crc));
        let new_crc = crc32fast::hash(new_data.as_slice());
        if new_crc == target_crc {
            Ok(new_data)
        } else {
            Err(HashError::Mismatch { expected: target_crc, actual: new_crc })
        }
    }
}

} // verus!
