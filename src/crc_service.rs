//! A general GF(2) polynomial toolkit — carry-less multiplication, long division,
//! remainders and modular inverses over 64-bit words — and CRC-32 forging built
//! on it instead of on a precomputed constant.

use vstd::prelude::*;
use vstd::std_specs::bits::{axiom_u64_leading_zeros, u64_leading_zeros};
use vstd::string::StringSliceAdditionalSpecFns;
use crate::error::CrcServiceError;
use crate::foreign::crc32_of;
use crate::math::endian::{bytes_to_vec, lemma_u32_be_round_trip, u32_be, u32_from_be};
use crate::utils::crc_manipulator::{padded_crc, rev32, rev8, reverse_byte, reverse_word};

verus! {

/// The XOR over the set bits `j < n` of `b` of `a` shifted left by `j` (cut to 64 bits).
pub open spec fn clmul_upto(a: u64, b: u64, n: u64) -> u64
    decreases n,
{
    if n == 0 {
        0
    } else {
        clmul_upto(a, b, (n - 1) as u64) ^ (if (b >> ((n - 1) as u64)) & 1 == 1 { (a << ((n - 1) as u64)) as u64 } else { 0 })
    }
}

/// The carry-less (GF(2)[x]) product of `a` and `b`, cut to 64 bits.
pub open spec fn clmul(a: u64, b: u64) -> u64 {
    clmul_upto(a, b, 64)
}

/// The number of significant bits of `x`: one more than the degree of the
/// polynomial it stands for, 0 for the zero polynomial.
pub open spec fn bit_len(x: u64) -> int {
    64 - u64_leading_zeros(x)
}

/// `q` is the quotient of `x` divided by `d`: the remainder `x ^ clmul(d, q)` has
/// fewer bits than `d`, and `q` has no bit above `bit_len(x) - bit_len(d)`.
pub open spec fn is_quotient(x: u64, d: u64, q: u64) -> bool {
    &&& bit_len(x ^ clmul(d, q)) < bit_len(d)
    &&& forall|j: u64| j < 64 && j as int > bit_len(x) - bit_len(d) ==> #[trigger] ((q >> j) & 1) == 0
}

/// The low `n` bits set.
pub open spec fn low_mask(n: nat) -> u64 {
    if n >= 64 { u64::MAX } else { ((1u64 << (n as u64)) - 1) as u64 }
}

/// `r` is the remainder of `x` divided by `d`, cut to its low `n` bits.
pub open spec fn is_residue(x: u64, d: u64, r: u64, n: nat) -> bool {
    exists|q: u64| is_quotient(x, d, q) && r == (x ^ clmul(d, q)) & low_mask(n)
}

proof fn lemma_bit_len(x: u64)
    ensures
        0 <= bit_len(x) <= 64,
        (x == 0) == (bit_len(x) == 0),
        bit_len(x) > 0 ==> (x >> ((bit_len(x) - 1) as u64)) & 1 == 1,
        forall|j: u64| bit_len(x) <= j < 64 ==> #[trigger] ((x >> j) & 1) == 0,
{
    axiom_u64_leading_zeros(x);
    if bit_len(x) > 0 {
        let y = x >> ((bit_len(x) - 1) as u64);
        assert(y & 1 != 0 ==> y & 1 == 1) by (bit_vector);
    }
}

proof fn lemma_bit_len_bound(x: u64, k: int)
    requires
        0 <= k <= 64,
        forall|j: u64| k <= j < 64 ==> #[trigger] ((x >> j) & 1) == 0,
    ensures
        bit_len(x) <= k,
{
    lemma_bit_len(x);
    if bit_len(x) > k {
        let t = (bit_len(x) - 1) as u64;
        assert((x >> t) & 1 == 0);
    }
}

proof fn lemma_bit_xor(a: u64, b: u64, j: u64)
    by (bit_vector)
    requires
        j < 64,
    ensures
        ((a ^ b) >> j) & 1 == ((a >> j) & 1) ^ ((b >> j) & 1),
{
}

proof fn lemma_bit_shl(d: u64, s: u64, j: u64)
    by (bit_vector)
    requires
        s <= j < 64,
    ensures
        ((d << s) >> j) & 1 == (d >> ((j - s) as u64)) & 1,
{
}

proof fn lemma_bit_set(q: u64, s: u64, j: u64)
    by (bit_vector)
    requires
        s < 64,
        j < 64,
    ensures
        ((q | (1u64 << s)) >> j) & 1 == if j == s { 1u64 } else { (q >> j) & 1 },
{
}

/// Setting a clear bit `s` of the multiplier adds `d << s` to the product.
proof fn lemma_clmul_set_bit(d: u64, q: u64, s: u64, n: u64)
    requires
        s < 64,
        n <= 64,
        (q >> s) & 1 == 0,
    ensures
        clmul_upto(d, q | (1u64 << s), n) == clmul_upto(d, q, n) ^ (if s < n { (d << s) as u64 } else { 0 }),
    decreases n,
{
    if n > 0 {
        let m = (n - 1) as u64;
        lemma_clmul_set_bit(d, q, s, m);
        let q2 = q | (1u64 << s);
        lemma_bit_set(q, s, m);
        let a = clmul_upto(d, q, m);
        let ds = (d << s) as u64;
        let dm = (d << m) as u64;
        let t1 = if (q >> m) & 1 == 1 { dm } else { 0u64 };
        let t2 = if (q2 >> m) & 1 == 1 { dm } else { 0u64 };
        let x = if s < m { ds } else { 0u64 };
        assert(clmul_upto(d, q, n) == a ^ t1);
        assert(clmul_upto(d, q2, n) == clmul_upto(d, q2, m) ^ t2);
        assert(clmul_upto(d, q2, m) == a ^ x);
        if m == s {
            assert(t1 == 0 && x == 0 && t2 == ds);
        } else {
            assert(t1 == t2);
            assert((a ^ x) ^ t1 == (a ^ t1) ^ x) by (bit_vector);
        }
    } else {
        assert(0u64 ^ 0u64 == 0) by (bit_vector);
    }
}

proof fn lemma_clmul_rest(a: u64, b: u64, i: u64, n: u64)
    requires
        i <= n <= 64,
        b >> i == 0,
    ensures
        clmul_upto(a, b, n) == clmul_upto(a, b, i),
    decreases n - i,
{
    if n > i {
        lemma_clmul_rest(a, b, i, (n - 1) as u64);
        let m = (n - 1) as u64;
        assert((b >> m) & 1 == 0) by (bit_vector)
            requires
                b >> i == 0,
                i <= m < 64,
        ;
        let x = clmul_upto(a, b, m);
        assert(x ^ 0 == x) by (bit_vector);
    }
}

proof fn lemma_clmul_zero(a: u64, n: u64)
    requires
        n <= 64,
    ensures
        clmul_upto(a, 0, n) == 0,
    decreases n,
{
    if n > 0 {
        lemma_clmul_zero(a, (n - 1) as u64);
        let m = (n - 1) as u64;
        assert((0u64 >> m) & 1 == 0 && 0u64 ^ 0u64 == 0) by (bit_vector);
    }
}

/// The number of significant bits of `x`.
pub fn bit_length(x: u64) -> (r: usize)
    ensures
        r as int == bit_len(x),
{
    proof {
        lemma_bit_len(x);
    }
    64 - x.leading_zeros() as usize
}

/// The carry-less product of `a` and `b`, cut to 64 bits.
pub fn gf_multiply(a: u64, b: u64) -> (r: u64)
    ensures
        r == clmul(a, b),
{
    let ghost a0 = a;
    let ghost b0 = b;
    let mut a = a;
    let mut b = b;
    let mut result: u64 = 0;
    let mut i: u64 = 0;
    assert(b0 >> 0u64 == b0 && a0 << 0u64 == a0) by (bit_vector);
    while b != 0
        invariant
            i <= 64,
            b == b0 >> i,
            a == (a0 << i) as u64,
            result == clmul_upto(a0, b0, i),
        decreases 64 - i,
    {
        assert(i < 64) by (bit_vector)
            requires
                b == b0 >> i,
                b != 0,
        ;
        let ghost old_result = result;
        if b & 1 != 0 {
            result ^= a;
        }
        assert(result == old_result ^ (if (b0 >> i) & 1 == 1 { (a0 << i) as u64 } else { 0 })) by (bit_vector)
            requires
                b == b0 >> i,
                a == (a0 << i) as u64,
                result == if b & 1 != 0 { old_result ^ a } else { old_result },
        ;
        a <<= 1;
        b >>= 1;
        assert(b == b0 >> ((i + 1) as u64) && a == (a0 << ((i + 1) as u64)) as u64) by (bit_vector)
            requires
                b == (b0 >> i) >> 1,
                a == (((a0 << i) as u64) << 1) as u64,
                i < 64,
        ;
        i = i + 1;
    }
    proof {
        lemma_clmul_rest(a0, b0, i, 64);
    }
    result
}

/// Cancelling the top bit of `x` with `d` shifted under it leaves fewer bits.
proof fn lemma_cancel_top(x: u64, d: u64)
    requires
        d != 0,
        x != 0,
        bit_len(x) >= bit_len(d),
    ensures
        0 <= bit_len(x) - bit_len(d) < 64,
        bit_len(x ^ ((d << ((bit_len(x) - bit_len(d)) as u64)) as u64)) < bit_len(x),
{
    lemma_bit_len(x);
    lemma_bit_len(d);
    let rb = bit_len(x);
    let db = bit_len(d);
    let s = (rb - db) as u64;
    let ds = (d << s) as u64;
    let y = x ^ ds;
    assert forall|j: u64| rb - 1 <= j < 64 implies #[trigger] ((y >> j) & 1) == 0 by {
        lemma_bit_xor(x, ds, j);
        lemma_bit_shl(d, s, j);
        let jj = (j - s) as u64;
        if j as int == rb - 1 {
            assert(jj as int == db - 1);
            assert((1u64 ^ 1u64) == 0) by (bit_vector);
        } else {
            assert(jj as int >= db);
            assert((0u64 ^ 0u64) == 0) by (bit_vector);
        }
    }
    lemma_bit_len_bound(y, rb - 1);
}

/// Schoolbook long division of `x` by `d` over GF(2)[x], with the quotient bits
/// found so far in `q`: while `x` has at least as many bits as `d`, cancel its top
/// bit with `d` shifted under it and record that shift in the quotient. The final
/// quotient and remainder.
pub open spec fn poly_divmod(x: u64, d: u64, q: u64) -> (u64, u64)
    decreases bit_len(x),
    when d != 0
    via divmod_decreases
{
    if x == 0 || bit_len(x) < bit_len(d) {
        (q, x)
    } else {
        let s = (bit_len(x) - bit_len(d)) as u64;
        poly_divmod(x ^ ((d << s) as u64), d, q | (1u64 << s))
    }
}

#[via_fn]
proof fn divmod_decreases(x: u64, d: u64, q: u64) {
    lemma_bit_len(x);
    if !(x == 0 || bit_len(x) < bit_len(d)) {
        lemma_cancel_top(x, d);
        lemma_bit_len(x ^ ((d << ((bit_len(x) - bit_len(d)) as u64)) as u64));
    }
}

/// The quotient of `x` by `d`, with the remainder.
pub open spec fn poly_quotient(x: u64, d: u64) -> u64 {
    poly_divmod(x, d, 0).0
}

/// The remainder of `x` by `d`.
pub open spec fn poly_remainder(x: u64, d: u64) -> u64 {
    poly_divmod(x, d, 0).1
}

/// Long division yields a quotient in the sense of `is_quotient`, and the
/// remainder that goes with it.
proof fn lemma_divmod(x0: u64, d: u64, x: u64, q: u64)
    requires
        d != 0,
        x == x0 ^ clmul(d, q),
        bit_len(x) <= bit_len(x0),
        forall|j: u64| j < 64 && j as int <= bit_len(x) - bit_len(d) ==> #[trigger] ((q >> j) & 1) == 0,
        forall|j: u64| j < 64 && j as int > bit_len(x0) - bit_len(d) ==> #[trigger] ((q >> j) & 1) == 0,
    ensures
        is_quotient(x0, d, poly_divmod(x, d, q).0),
        poly_divmod(x, d, q).1 == x0 ^ clmul(d, poly_divmod(x, d, q).0),
    decreases bit_len(x),
{
    lemma_bit_len(x);
    lemma_bit_len(d);
    if x == 0 || bit_len(x) < bit_len(d) {
    } else {
        lemma_cancel_top(x, d);
        let db = bit_len(d);
        let s = (bit_len(x) - db) as u64;
        let ds = (d << s) as u64;
        let q2 = q | (1u64 << s);
        let x2 = x ^ ds;
        lemma_clmul_set_bit(d, q, s, 64);
        let c = clmul(d, q);
        assert((x0 ^ c) ^ ds == x0 ^ (c ^ ds)) by (bit_vector);
        lemma_bit_len(x2);
        assert forall|j: u64| j < 64 && j as int <= bit_len(x2) - db implies #[trigger] ((q2 >> j) & 1) == 0 by {
            lemma_bit_set(q, s, j);
        }
        assert forall|j: u64| j < 64 && j as int > bit_len(x0) - db implies #[trigger] ((q2 >> j) & 1) == 0 by {
            lemma_bit_set(q, s, j);
        }
        lemma_divmod(x0, d, x2, q2);
    }
}

/// The quotient and remainder of dividing by a nonzero divisor are a quotient in
/// the sense of `is_quotient` and the remainder that goes with it.
pub proof fn lemma_poly_division(x: u64, d: u64)
    requires
        d != 0,
    ensures
        is_quotient(x, d, poly_quotient(x, d)),
        poly_remainder(x, d) == x ^ clmul(d, poly_quotient(x, d)),
{
    lemma_clmul_zero(d, 64);
    assert(x ^ 0u64 == x) by (bit_vector);
    assert forall|j: u64| j < 64 implies #[trigger] ((0u64 >> j) & 1) == 0 by {
        assert((0u64 >> j) & 1 == 0) by (bit_vector);
    }
    lemma_divmod(x, d, x, 0);
}

/// Long division of `dividend` by a nonzero `divisor`: the quotient and remainder.
fn long_division(dividend: u64, divisor: u64) -> (res: (u64, u64))
    requires
        divisor != 0,
    ensures
        res == poly_divmod(dividend, divisor, 0),
{
    let mut quotient: u64 = 0;
    let mut remainder = dividend;
    let divisor_bits = bit_length(divisor);
    while remainder != 0 && bit_length(remainder) >= divisor_bits
        invariant
            divisor != 0,
            divisor_bits as int == bit_len(divisor),
            poly_divmod(remainder, divisor, quotient) == poly_divmod(dividend, divisor, 0),
        decreases bit_len(remainder),
    {
        proof {
            lemma_cancel_top(remainder, divisor);
            lemma_bit_len(remainder);
            lemma_bit_len(remainder ^ ((divisor << ((bit_len(remainder) - bit_len(divisor)) as u64)) as u64));
        }
        let remainder_bits = bit_length(remainder);
        let shift = remainder_bits - divisor_bits;
        quotient = quotient | (1u64 << shift);
        remainder = remainder ^ (divisor << shift);
    }
    (quotient, remainder)
}

/// The quotient of dividing `dividend` by `divisor` as GF(2) polynomials; 0 when
/// `divisor` is zero.
pub fn gf_divide(dividend: u64, divisor: u64) -> (r: u64)
    ensures
        divisor == 0 ==> r == 0,
        divisor != 0 ==> r == poly_quotient(dividend, divisor),
        divisor != 0 ==> is_quotient(dividend, divisor, r),
{
    if divisor == 0 {
        return 0;
    }
    proof {
        lemma_poly_division(dividend, divisor);
    }
    long_division(dividend, divisor).0
}

/// The remainder of `dividend` divided by `divisor`, cut to its low `n` bits; the
/// dividend itself when `divisor` is zero.
pub fn gf_mod(dividend: u64, divisor: u64, n: usize) -> (r: u64)
    ensures
        divisor == 0 ==> r == dividend,
        divisor != 0 ==> r == poly_remainder(dividend, divisor) & low_mask(n as nat),
        divisor != 0 ==> is_residue(dividend, divisor, r, n as nat),
{
    if divisor == 0 {
        return dividend;
    }
    let mask: u64 = if n >= 64 {
        u64::MAX
    } else {
        let k = n as u64;
        assert(1u64 << k >= 1) by (bit_vector)
            requires
                k < 64,
        ;
        (1u64 << k) - 1
    };
    let (q, rem) = long_division(dividend, divisor);
    proof {
        lemma_poly_division(dividend, divisor);
    }
    assert(is_quotient(dividend, divisor, q) && rem & mask == (dividend ^ clmul(divisor, q)) & low_mask(n as nat));
    rem & mask
}


/// `r` is the product of `a` and `b` modulo `m`, cut to `n` bits (the plain
/// product when `m` is zero).
pub open spec fn is_mulmod(a: u64, b: u64, m: u64, r: u64, n: nat) -> bool {
    if m == 0 { r == clmul(a, b) } else { is_residue(clmul(a, b), m, r, n) }
}

/// `s` is an inverse of `a` modulo `m`: their product leaves remainder 1.
pub open spec fn is_inverse(a: u64, m: u64, s: u64) -> bool {
    is_mulmod(a, s, m, 1, 64)
}

/// The product of `a` and `b` modulo `m` by long division, cut to `n` bits (the
/// plain product when `m` is zero).
pub open spec fn mulmod_value(a: u64, b: u64, m: u64, n: nat) -> u64 {
    if m == 0 { clmul(a, b) } else { poly_remainder(clmul(a, b), m) & low_mask(n) }
}

/// The extended Euclidean algorithm over GF(2)[x]: from remainders `(old_r, r)`
/// with coefficients `(old_s, s)`, divide, carry the remainder and coefficient
/// forward, until the remainder is zero; the last nonzero remainder (the gcd) and
/// its coefficient.
pub open spec fn euclid(old_r: u64, r: u64, old_s: u64, s: u64) -> (u64, u64)
    decreases bit_len(r)
    via euclid_decreases
{
    if r == 0 {
        (old_r, old_s)
    } else {
        let q = poly_quotient(old_r, r);
        euclid(r, old_r ^ clmul(r, q), s, old_s ^ clmul(q, s))
    }
}

#[via_fn]
proof fn euclid_decreases(old_r: u64, r: u64, old_s: u64, s: u64) {
    lemma_bit_len(r);
    if r != 0 {
        lemma_poly_division(old_r, r);
        lemma_bit_len(old_r ^ clmul(r, poly_quotient(old_r, r)));
    }
}

/// What the inverse solver yields for `a` modulo `m`: an error for zero; the
/// Euclidean coefficient when the gcd is 1 and its product with `a` leaves 1;
/// otherwise no inverse.
pub open spec fn inverse_result(a: u64, m: u64) -> Result<u64, CrcServiceError> {
    if a == 0 {
        Err(CrcServiceError::ZeroInverse)
    } else {
        let (g, s) = euclid(m, a, 0, 1);
        if g == 1 && mulmod_value(a, s, m, 64) == 1 {
            Ok(s)
        } else {
            Err(CrcServiceError::ModularInverseUndefined)
        }
    }
}

/// What `gf_inverse` yields: `k` times the inverse of `x^32` modulo `poly`, cut to 32 bits.
pub open spec fn x32_inverse_product(k: u32, poly: u64) -> Result<u32, CrcServiceError> {
    match inverse_result(0x1_0000_0000, poly) {
        Ok(inv) => Ok(mulmod_value(k as u64, inv, poly, 32) as u32),
        Err(e) => Err(e),
    }
}

/// The long-division product is a product modulo `m` in the sense of `is_mulmod`.
pub proof fn lemma_mulmod_value(a: u64, b: u64, m: u64, n: nat)
    ensures
        is_mulmod(a, b, m, mulmod_value(a, b, m, n), n),
{
    if m != 0 {
        lemma_poly_division(clmul(a, b), m);
        let q = poly_quotient(clmul(a, b), m);
        assert(is_quotient(clmul(a, b), m, q) && mulmod_value(a, b, m, n) == (clmul(a, b) ^ clmul(m, q)) & low_mask(n));
    }
}

/// Whatever the solver returns is an inverse.
pub proof fn lemma_inverse_result_is_inverse(a: u64, m: u64)
    ensures
        inverse_result(a, m) is Ok ==> is_inverse(a, m, inverse_result(a, m)->Ok_0),
{
    let (g, s) = euclid(m, a, 0, 1);
    lemma_mulmod_value(a, s, m, 64);
}

/// The product of `a` and `b` modulo `modulus`, cut to `n` bits.
pub fn gf_multiply_modular(a: u64, b: u64, modulus: u64, n: usize) -> (r: u64)
    ensures
        r == mulmod_value(a, b, modulus, n as nat),
        is_mulmod(a, b, modulus, r, n as nat),
{
    proof {
        lemma_mulmod_value(a, b, modulus, n as nat);
    }
    let product = gf_multiply(a, b);
    gf_mod(product, modulus, n)
}

/// An inverse of `a` modulo `m` by the extended Euclidean algorithm over GF(2)[x].
/// Zero has none; when the algorithm ends on a gcd other than 1, or its
/// coefficient times `a` does not leave 1, the inverse is reported undefined.
pub fn gf_modular_inverse(a: u64, m: u64) -> (r: Result<u64, CrcServiceError>)
    ensures
        r == inverse_result(a, m),
        r is Ok ==> is_inverse(a, m, r->Ok_0),
{
    proof {
        lemma_inverse_result_is_inverse(a, m);
    }
    if a == 0 {
        return Err(CrcServiceError::ZeroInverse);
    }
    let mut old_r = m;
    let mut r = a;
    let mut old_s: u64 = 0;
    let mut s: u64 = 1;
    while r != 0
        invariant
            euclid(old_r, r, old_s, s) == euclid(m, a, 0, 1),
        decreases bit_len(r),
    {
        proof {
            lemma_bit_len(r);
            lemma_poly_division(old_r, r);
            lemma_bit_len(old_r ^ clmul(r, poly_quotient(old_r, r)));
        }
        let quotient = gf_divide(old_r, r);
        let temp = r;
        r = old_r ^ gf_multiply(temp, quotient);
        old_r = temp;
        let temp = s;
        s = old_s ^ gf_multiply(quotient, temp);
        old_s = temp;
    }
    if old_r != 1 {
        return Err(CrcServiceError::ModularInverseUndefined);
    }
    if gf_multiply_modular(a, old_s, m, 64) != 1 {
        return Err(CrcServiceError::ModularInverseUndefined);
    }
    Ok(old_s)
}

/// `k` times the inverse of `x^32` modulo `poly`, cut to 32 bits.
pub fn gf_inverse(k: u32, poly: u64) -> (r: Result<u32, CrcServiceError>)
    ensures
        r == x32_inverse_product(k, poly),
        r is Ok ==> exists|inv: u64, res: u64| #[trigger] is_inverse(0x1_0000_0000, poly, inv) && #[trigger] is_mulmod(k as u64, inv, poly, res, 32) && r->Ok_0 == res as u32,
{
    let x32: u64 = 0x1_0000_0000;
    let inverse = match gf_modular_inverse(x32, poly) {
        Ok(v) => v,
        Err(e) => return Err(e),
    };
    let result = gf_multiply_modular(k as u64, inverse, poly, 32);
    assert(is_inverse(x32, poly, inverse) && is_mulmod(k as u64, inverse, poly, result, 32));
    Ok(result as u32)
}

/// `k` times the inverse of `x^32` modulo the CRC-32 generator polynomial.
pub fn calculate_gf_modular_inverse(k: u32) -> (r: Result<u32, CrcServiceError>)
    ensures
        r == x32_inverse_product(k, 0x104C11DB7),
        r is Ok ==> exists|inv: u64, res: u64| #[trigger] is_inverse(0x1_0000_0000, 0x104C11DB7, inv) && #[trigger] is_mulmod(k as u64, inv, 0x104C11DB7, res, 32) && r->Ok_0 == res as u32,
{
    gf_inverse(k, 0x104C11DB7)
}

/// The value of an ASCII hex digit (either case).
pub open spec fn hex_value(c: u8) -> Option<u8> {
    if 48 <= c <= 57 {
        Some((c - 48) as u8)
    } else if 65 <= c <= 70 {
        Some((c - 55) as u8)
    } else if 97 <= c <= 102 {
        Some((c - 87) as u8)
    } else {
        None
    }
}

/// The byte that a two-character hex number stands for: two digits, or a plus
/// sign and one digit.
pub open spec fn hex_pair(c1: u8, c2: u8) -> Option<u8> {
    if c1 == 43 {
        hex_value(c2)
    } else {
        match (hex_value(c1), hex_value(c2)) {
            (Some(h), Some(l)) => Some((16 * h + l) as u8),
            _ => None,
        }
    }
}

/// Every consecutive pair of `b` is a hex number.
pub open spec fn hex_pairs_valid(b: Seq<u8>) -> bool {
    forall|i: int| 0 <= i < b.len() / 2 ==> #[trigger] hex_pair(b[2 * i], b[2 * i + 1]) is Some
}

/// The bytes that the consecutive pairs of `b` stand for.
pub open spec fn hex_pairs(b: Seq<u8>) -> Seq<u8> {
    Seq::new(b.len() / 2, |i: int| hex_pair(b[2 * i], b[2 * i + 1])->0)
}

fn hex_digit_value(c: u8) -> (r: Option<u8>)
    ensures
        r == hex_value(c),
{
    if 48 <= c && c <= 57 {
        Some(c - 48)
    } else if 65 <= c && c <= 70 {
        Some(c - 55)
    } else if 97 <= c && c <= 102 {
        Some(c - 87)
    } else {
        None
    }
}

/// Parses a string of two-character hex numbers into bytes.
pub fn hex_string_to_bytes(hex: &str) -> (r: Result<Vec<u8>, CrcServiceError>)
    ensures
        hex.spec_bytes().len() % 2 != 0 ==> r == Err::<Vec<u8>, CrcServiceError>(CrcServiceError::OddHexLength),
        hex.spec_bytes().len() % 2 == 0 && hex_pairs_valid(hex.spec_bytes()) ==> (r is Ok && r->Ok_0@ == hex_pairs(hex.spec_bytes())),
        hex.spec_bytes().len() % 2 == 0 && !hex_pairs_valid(hex.spec_bytes()) ==> r == Err::<Vec<u8>, CrcServiceError>(CrcServiceError::InvalidHex),
{
    let b = hex.as_bytes();
    let len = b.len();
    if len % 2 != 0 {
        return Err(CrcServiceError::OddHexLength);
    }
    let n = len / 2;
    let mut out: Vec<u8> = Vec::with_capacity(n);
    let mut i: usize = 0;
    while i < n
        invariant
            len == b@.len(),
            b@ == hex.spec_bytes(),
            len % 2 == 0,
            n == len / 2,
            i <= n,
            out@.len() == i,
            forall|j: int| 0 <= j < i ==> #[trigger] hex_pair(b@[2 * j], b@[2 * j + 1]) is Some,
            forall|j: int| 0 <= j < i ==> #[trigger] out@[j] == hex_pairs(b@)[j],
        decreases n - i,
    {
        assert(2 * i + 1 < len) by (nonlinear_arith)
            requires
                i < n,
                n == len / 2,
        ;
        let c1 = b[2 * i];
        let c2 = b[2 * i + 1];
        let v = if c1 == 43 {
            hex_digit_value(c2)
        } else {
            match (hex_digit_value(c1), hex_digit_value(c2)) {
                (Some(h), Some(l)) => Some(16 * h + l),
                _ => None,
            }
        };
        match v {
            Some(x) => {
                out.push(x);
            },
            None => {
                assert(!hex_pairs_valid(b@)) by {
                    assert(hex_pair(b@[2 * (i as int)], b@[2 * (i as int) + 1]) is None);
                }
                return Err(CrcServiceError::InvalidHex);
            },
        }
        i = i + 1;
    }
    assert(out@ =~= hex_pairs(b@));
    Ok(out)
}

/// The big-endian word in four bytes.
pub fn bytes_to_u32_be(bytes: &[u8]) -> (r: u32)
    requires
        bytes@.len() == 4,
    ensures
        r == u32_from_be(bytes@),
{
    (bytes[3] as u32) | ((bytes[2] as u32) << 8) | ((bytes[1] as u32) << 16) | ((bytes[0] as u32) << 24)
}

/// The four big-endian bytes of a word.
pub fn u32_to_bytes_be(value: u32) -> (r: Vec<u8>)
    ensures
        r@ == u32_be(value),
{
    let r = vec![((value >> 24) & 0xff) as u8, ((value >> 16) & 0xff) as u8, ((value >> 8) & 0xff) as u8, (value & 0xff) as u8];
    assert(r@ =~= u32_be(value));
    r
}

/// Four bytes read as a big-endian word, bit-reversed, written back big-endian.
pub fn reverse_bits_in_bytes(byte_array: &[u8]) -> (r: Vec<u8>)
    requires
        byte_array@.len() == 4,
    ensures
        r@ == u32_be(rev32(u32_from_be(byte_array@))),
{
    let num = bytes_to_u32_be(byte_array);
    u32_to_bytes_be(reverse_word(num))
}

/// The correction bytes for solver output `v`: big-endian, each byte bit-reversed.
pub open spec fn correction_bytes(v: u32) -> Seq<u8> {
    u32_be(v).map_values(|b: u8| rev8(b))
}

/// The solver's input for steering a checksum from `padded` to `target`: their
/// difference, bit-reversed.
pub open spec fn correction_input(padded: u32, target: u32) -> u32 {
    rev32(target ^ padded)
}

/// Makes `modified` checksum like `original` with the general solver: appends the
/// four correction bytes, and says whether the checksum of the result equals that
/// of `original`, with the result. Fails only when the solver does.
pub fn manipulate_crc(original: &[u8], modified: &[u8]) -> (r: Result<(bool, Vec<u8>), CrcServiceError>)
    requires
        modified@.len() <= usize::MAX - 4,
    ensures
        ({
            let k = correction_input(padded_crc(modified@), crc32_of(original@));
            match x32_inverse_product(k, 0x104C11DB7) {
                Ok(v) => r is Ok && r->Ok_0.1@ == modified@ + correction_bytes(v)
                    && r->Ok_0.0 == (crc32_of(r->Ok_0.1@) == crc32_of(original@)),
                Err(e) => r == Err::<(bool, Vec<u8>), CrcServiceError>(e),
            }
        }),
{
    let original_crc = crate::hash::evaluate_crc32(original);
    let mut padded = bytes_to_vec(modified);
    padded.push(0);
    padded.push(0);
    padded.push(0);
    padded.push(0);
    assert(padded@ =~= modified@ + seq![0u8, 0u8, 0u8, 0u8]);
    let modified_crc = crate::hash::CrcResult::new(crc32fast::hash(padded.as_slice()));
    let xor_result = u32_to_bytes_be(original_crc.value ^ modified_crc.value);
    let reversed_bytes = reverse_bits_in_bytes(xor_result.as_slice());
    let k = bytes_to_u32_be(reversed_bytes.as_slice());
    proof {
        let x = original_crc.value ^ modified_crc.value;
        lemma_u32_be_round_trip(x);
        lemma_u32_be_round_trip(rev32(x));
    }
    assert(k == correction_input(padded_crc(modified@), crc32_of(original@)));
    let correction_value = match calculate_gf_modular_inverse(k) {
        Ok(v) => v,
        Err(e) => return Err(e),
    };
    let raw = u32_to_bytes_be(correction_value);
    let mut final_data = bytes_to_vec(modified);
    final_data.push(reverse_byte(raw[0]));
    final_data.push(reverse_byte(raw[1]));
    final_data.push(reverse_byte(raw[2]));
    final_data.push(reverse_byte(raw[3]));
    assert(final_data@ =~= modified@ + correction_bytes(correction_value));
    let final_crc = crate::hash::evaluate_crc32(final_data.as_slice());
    let is_crc_match = final_crc.value == original_crc.value;
    Ok((is_crc_match, final_data))
}

} // verus!
