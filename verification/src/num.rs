//! Canonical decimal rendering of integers: no leading zeros, a leading `-`
//! exactly for negative values.

use crate::sink::push_char;
use vstd::prelude::*;

verus! {

/// The character for one decimal digit.
pub open spec fn digit_char(d: nat) -> char
    recommends
        d < 10,
{
    ((48 + d) as u8) as char
}

/// Canonical decimal digits of `n`, most significant first.
pub open spec fn dec_nat(n: nat) -> Seq<char>
    decreases n,
{
    if n < 10 {
        seq![digit_char(n)]
    } else {
        dec_nat(n / 10).push(digit_char(n % 10))
    }
}

/// Canonical decimal form of an integer: digits, preceded by `-` exactly
/// when the value is negative.
pub open spec fn dec_int(i: int) -> Seq<char> {
    if i < 0 {
        seq!['-'] + dec_nat((-i) as nat)
    } else {
        dec_nat(i as nat)
    }
}

/// Appends the canonical decimal digits of `n` to `out`.
pub fn push_decimal_u128(out: &mut String, n: u128)
    ensures
        final(out)@ == old(out)@ + dec_nat(n as nat),
    decreases n,
{
    if n >= 10 {
        push_decimal_u128(out, n / 10);
        let d: u8 = (n % 10) as u8;
        push_char(out, (48 + d) as char);
    } else {
        let d: u8 = n as u8;
        push_char(out, (48 + d) as char);
    }
}

/// Appends the canonical decimal form of `i` to `out`.
pub fn push_decimal_i128(out: &mut String, i: i128)
    ensures
        final(out)@ == old(out)@ + dec_int(i as int),
{
    if i >= 0 {
        push_decimal_u128(out, i as u128);
    } else {
        push_char(out, '-');
        let m: u128 = ((-(i + 1)) as u128) + 1;
        assert(m == -(i as int));
        push_decimal_u128(out, m);
    }
}

/// The canonical decimal digits of `n`, as an owned string.
pub fn format_u128(n: u128) -> (r: String)
    ensures
        r@ == dec_nat(n as nat),
{
    let mut out = String::new();
    push_decimal_u128(&mut out, n);
    out
}

/// The canonical decimal form of `i`, as an owned string.
pub fn format_i128(i: i128) -> (r: String)
    ensures
        r@ == dec_int(i as int),
{
    let mut out = String::new();
    push_decimal_i128(&mut out, i);
    out
}

} // verus!
