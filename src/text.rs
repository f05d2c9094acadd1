//! Decimal and hexadecimal renderings of numbers.

use vstd::prelude::*;
use crate::foreign::push_char;

verus! {

/// The decimal digit for `d < 10`.
pub open spec fn decimal_digit(d: nat) -> char {
    (d + 48) as char
}

/// The decimal digits of `n`, most significant first, without leading zeros.
pub open spec fn decimal(n: nat) -> Seq<char>
    decreases n,
{
    if n < 10 {
        seq![decimal_digit(n)]
    } else {
        decimal(n / 10).push(decimal_digit(n % 10))
    }
}

/// The decimal rendering of a signed number: a minus sign before a negative one.
pub open spec fn signed_decimal(n: int) -> Seq<char> {
    if n < 0 { seq!['-'] + decimal((-n) as nat) } else { decimal(n as nat) }
}

/// The hexadecimal digit for `d < 16`, upper case when `upper`.
pub open spec fn hex_digit(d: nat, upper: bool) -> char {
    if d < 10 { (d + 48) as char } else if upper { (d + 55) as char } else { (d + 87) as char }
}

/// `v` as eight upper-case hexadecimal digits (its nibbles, most significant
/// first), zero-padded.
pub open spec fn hex8_upper(v: u32) -> Seq<char> {
    Seq::new(8, |i: int| hex_digit(((v >> ((4 * (7 - i)) as u32)) & 0xf) as nat, true))
}

/// Each byte as two lower-case hexadecimal digits.
pub open spec fn hex_lower(b: Seq<u8>) -> Seq<char> {
    Seq::new(2 * b.len(), |i: int| if i % 2 == 0 { hex_digit((b[i / 2] / 16) as nat, false) } else { hex_digit((b[i / 2] % 16) as nat, false) })
}

/// The character of hexadecimal digit `d`.
pub fn hex_char(d: u8, upper: bool) -> (r: char)
    requires
        d < 16,
    ensures
        r == hex_digit(d as nat, upper),
{
    if d < 10 {
        (d + 48) as char
    } else if upper {
        (d + 55) as char
    } else {
        (d + 87) as char
    }
}

/// Appends the decimal digits of `n`.
pub fn push_decimal(s: &mut String, n: u64)
    ensures
        final(s)@ == old(s)@ + decimal(n as nat),
    decreases n,
{
    if n >= 10 {
        push_decimal(s, n / 10);
    }
    let d = (n % 10) as u8;
    push_char(s, (d + 48) as char);
    assert(final(s)@ =~= old(s)@ + decimal(n as nat)) by {
        if n >= 10 {
            assert(decimal(n as nat) == decimal((n / 10) as nat).push(decimal_digit((n % 10) as nat)));
        }
    }
}

/// Appends the decimal rendering of a signed number.
pub fn push_signed_decimal(s: &mut String, n: i64)
    ensures
        final(s)@ == old(s)@ + signed_decimal(n as int),
{
    if n < 0 {
        push_char(s, '-');
        let m: u64 = (-(n as i128)) as u64;
        push_decimal(s, m);
        assert(final(s)@ =~= old(s)@ + signed_decimal(n as int));
    } else {
        push_decimal(s, n as u64);
    }
}

/// `v` as eight upper-case hexadecimal digits.
pub fn hex8(v: u32) -> (r: String)
    ensures
        r@ == hex8_upper(v),
{
    let mut s = String::new();
    let mut i: u32 = 0;
    while i < 8
        invariant
            i <= 8,
            s@.len() == i,
            forall|j: int| 0 <= j < i ==> #[trigger] s@[j] == hex8_upper(v)[j],
        decreases 8 - i,
    {
        let shift: u32 = 4 * (7 - i);
        let x: u32 = (v >> shift) & 0xf;
        assert(x < 16) by (bit_vector)
            requires
                x == (v >> shift) & 0xf,
        ;
        let d = x as u8;
        assert(hex8_upper(v)[i as int] == hex_digit(d as nat, true));
        push_char(&mut s, hex_char(d, true));
        i = i + 1;
    }
    assert(s@ =~= hex8_upper(v));
    s
}

/// Each byte as two lower-case hexadecimal digits.
pub fn hex_lower_string(bytes: &[u8]) -> (r: String)
    ensures
        r@ == hex_lower(bytes@),
{
    let mut s = String::new();
    let mut i: usize = 0;
    while i < bytes.len()
        invariant
            i <= bytes@.len(),
            s@.len() == 2 * i,
            forall|j: int| 0 <= j < 2 * i ==> #[trigger] s@[j] == hex_lower(bytes@)[j],
        decreases bytes@.len() - i,
    {
        let b = bytes[i];
        push_char(&mut s, hex_char(b / 16, false));
        push_char(&mut s, hex_char(b % 16, false));
        assert((2 * i) as int / 2 == i && (2 * i) as int % 2 == 0 && (2 * i + 1) as int / 2 == i && (2 * i + 1) as int % 2 == 1) by (nonlinear_arith);
        i = i + 1;
    }
    assert(s@ =~= hex_lower(bytes@));
    s
}

} // verus!
