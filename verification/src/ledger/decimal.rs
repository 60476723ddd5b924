//! Fixed-point decimal arithmetic as carried out by `rust_decimal`.
//!
//! A decimal is held here as plain parts: a signed mantissa of at most 96 bits
//! and a scale (the number of fractional digits, at most 28). Its value is
//! `mantissa / 10^scale`; contracts count it as an integer number of `10^-28`
//! units, which is exact for every scale.
//!
//! Every computation on decimals goes through `rust_decimal::Decimal`: the
//! functions below build a `Decimal` from the parts, make one call, and hand the
//! parts of the answer back.

use std::str::FromStr;

use vstd::prelude::*;
use vstd::arithmetic::power::pow;

use rust_decimal::{Decimal, RoundingStrategy};

verus! {

/// Largest mantissa magnitude a decimal can hold: `2^96 - 1`.
pub const MAX_MANTISSA: i128 = 79228162514264337593543950335;

/// Largest number of fractional digits a decimal can hold.
pub const MAX_SCALE: u32 = 28;

/// `10^n`, written out for every scale that a decimal can have.
pub open spec fn pow10(n: nat) -> int {
    if n == 0 {
        1
    } else if n == 1 {
        10
    } else if n == 2 {
        100
    } else if n == 3 {
        1000
    } else if n == 4 {
        10000
    } else if n == 5 {
        100000
    } else if n == 6 {
        1000000
    } else if n == 7 {
        10000000
    } else if n == 8 {
        100000000
    } else if n == 9 {
        1000000000
    } else if n == 10 {
        10000000000
    } else if n == 11 {
        100000000000
    } else if n == 12 {
        1000000000000
    } else if n == 13 {
        10000000000000
    } else if n == 14 {
        100000000000000
    } else if n == 15 {
        1000000000000000
    } else if n == 16 {
        10000000000000000
    } else if n == 17 {
        100000000000000000
    } else if n == 18 {
        1000000000000000000
    } else if n == 19 {
        10000000000000000000
    } else if n == 20 {
        100000000000000000000
    } else if n == 21 {
        1000000000000000000000
    } else if n == 22 {
        10000000000000000000000
    } else if n == 23 {
        100000000000000000000000
    } else if n == 24 {
        1000000000000000000000000
    } else if n == 25 {
        10000000000000000000000000
    } else if n == 26 {
        100000000000000000000000000
    } else if n == 27 {
        1000000000000000000000000000
    } else if n == 28 {
        10000000000000000000000000000
    } else {
        pow(10, n)
    }
}

/// `pow10` is the power of ten.
pub broadcast proof fn lemma_pow10_is_pow(n: nat)
    ensures
        #[trigger] pow10(n) == pow(10, n),
{
    if n <= 28 {
        reveal_with_fuel(pow, 29);
    }
}

/// The parts describe a decimal that can exist.
pub open spec fn valid_parts(mantissa: int, scale: int) -> bool {
    &&& -MAX_MANTISSA <= mantissa <= MAX_MANTISSA
    &&& 0 <= scale <= MAX_SCALE
}

/// The value of `mantissa / 10^scale`, counted in units of `10^-28`.
pub open spec fn parts_value(mantissa: int, scale: nat) -> int {
    mantissa * pow10((MAX_SCALE - scale) as nat)
}

/// The larger of two scales: the scale at which two decimals line up.
pub open spec fn common_scale(a_scale: nat, b_scale: nat) -> nat {
    if a_scale >= b_scale {
        a_scale
    } else {
        b_scale
    }
}

/// The mantissa of a decimal rewritten at a larger scale.
pub open spec fn rescaled(mantissa: int, scale: nat, to_scale: nat) -> int {
    mantissa * pow10((to_scale - scale) as nat)
}

/// The mantissa of the exact sum of two decimals at their common scale.
pub open spec fn exact_sum(a_mantissa: int, a_scale: nat, b_mantissa: int, b_scale: nat) -> int {
    let s = common_scale(a_scale, b_scale);
    rescaled(a_mantissa, a_scale, s) + rescaled(b_mantissa, b_scale, s)
}

/// The mantissa of the exact difference of two decimals at their common scale.
pub open spec fn exact_difference(a_mantissa: int, a_scale: nat, b_mantissa: int, b_scale: nat) -> int {
    let s = common_scale(a_scale, b_scale);
    rescaled(a_mantissa, a_scale, s) - rescaled(b_mantissa, b_scale, s)
}

/// The exact sum of two decimals fits in 96 bits at their common scale, so no
/// digit has to be dropped to hold it.
pub open spec fn sum_fits(a_mantissa: int, a_scale: nat, b_mantissa: int, b_scale: nat) -> bool {
    -MAX_MANTISSA <= exact_sum(a_mantissa, a_scale, b_mantissa, b_scale) <= MAX_MANTISSA
}

/// The exact difference of two decimals fits in 96 bits at their common scale.
pub open spec fn difference_fits(a_mantissa: int, a_scale: nat, b_mantissa: int, b_scale: nat) -> bool {
    -MAX_MANTISSA <= exact_difference(a_mantissa, a_scale, b_mantissa, b_scale) <= MAX_MANTISSA
}

/// A value, counted in units of `10^-28`, that a decimal with `scale`
/// fractional digits holds exactly: a whole number of `10^-scale` units whose
/// count fits in 96 bits.
pub open spec fn held_exactly_at(value: int, scale: nat) -> bool {
    &&& scale <= MAX_SCALE
    &&& value % pow10((MAX_SCALE - scale) as nat) == 0
    &&& -MAX_MANTISSA <= value / pow10((MAX_SCALE - scale) as nat) <= MAX_MANTISSA
}

/// A decimal with at most `scale` fractional digits holds the value exactly.
pub open spec fn held_exactly_within(value: int, scale: nat) -> bool {
    exists|t: nat| t <= scale && #[trigger] held_exactly_at(value, t)
}

/// A decimal digit character.
pub open spec fn is_decimal_digit(c: char) -> bool {
    48 <= c as u32 <= 57
}

/// The number a run of decimal digits writes.
pub open spec fn digits_value(digits: Seq<char>) -> int
    decreases digits.len(),
{
    if digits.len() == 0 {
        0
    } else {
        digits_value(digits.drop_last()) * 10 + (digits.last() as u32 - 48)
    }
}

/// Every character is a decimal digit, and there is at least one.
pub open spec fn all_digits(digits: Seq<char>) -> bool {
    digits.len() > 0 && forall|i: int| 0 <= i < digits.len() ==> is_decimal_digit(#[trigger] digits[i])
}

/// The parts of an unsigned decimal written plainly: one or more digits, and
/// optionally a point followed by one to 28 digits. `None` for any other
/// text.
pub open spec fn unsigned_decimal_parts(body: Seq<char>) -> Option<(int, nat)> {
    if body.contains('.') {
        let i = body.index_of('.');
        let whole = body.subrange(0, i);
        let frac = body.subrange(i + 1, body.len() as int);
        if all_digits(whole) && all_digits(frac) && frac.len() <= MAX_SCALE {
            Some((digits_value(whole + frac), frac.len()))
        } else {
            None
        }
    } else if all_digits(body) {
        Some((digits_value(body), 0))
    } else {
        None
    }
}

/// The parts of a decimal written plainly: an optional minus sign before an
/// unsigned decimal. `None` for any other text.
pub open spec fn plain_decimal_parts(text: Seq<char>) -> Option<(int, nat)> {
    if text.len() > 0 && text[0] == '-' {
        match unsigned_decimal_parts(text.drop_first()) {
            Some(p) => Some((-p.0, p.1)),
            None => None,
        }
    } else {
        unsigned_decimal_parts(text)
    }
}

/// Division that drops the fraction, rounding toward zero (`d > 0`).
pub open spec fn trunc_div(a: int, d: int) -> int {
    if a >= 0 {
        a / d
    } else {
        -((-a) / d)
    }
}

/// What `Decimal::checked_add` gives on two decimals, as parts.
pub uninterp spec fn decimal_checked_add(a_mantissa: i128, a_scale: u32, b_mantissa: i128, b_scale: u32) -> Option<(i128, u32)>;

/// What `Decimal::checked_sub` gives on two decimals, as parts.
pub uninterp spec fn decimal_checked_sub(a_mantissa: i128, a_scale: u32, b_mantissa: i128, b_scale: u32) -> Option<(i128, u32)>;

/// What `Decimal::from_str` gives on a text: the parts of the decimal, or the
/// text of the error.
pub uninterp spec fn decimal_from_str(text: Seq<char>) -> Result<(i128, u32), Seq<char>>;

/// Calls `Decimal::checked_add`. Claimed of it: the answer is the named
/// result; any decimal it returns is valid; a zero left operand gives the
/// right one as it is, and a zero right operand the left one as it is; two
/// non-zero operands whose exact sum fits in 96 bits at their common scale
/// give that sum at that scale; and where a decimal with no more fractional
/// digits than the common scale holds the exact sum, the answer is worth
/// exactly the sum. (Every path of the addition works on the exact sum and
/// drops trailing digits only while it does not fit in 96 bits, first by an
/// estimate of the digits in excess that never exceeds the number that must
/// go, then one digit at a time; the digits it drops are then zeros, so no
/// rounding happens.)
#[verifier::external_body]
pub(crate) fn checked_add_parts(a_mantissa: i128, a_scale: u32, b_mantissa: i128, b_scale: u32) -> (r: Option<(i128, u32)>)
    requires
        valid_parts(a_mantissa as int, a_scale as int),
        valid_parts(b_mantissa as int, b_scale as int),
    ensures
        r == decimal_checked_add(a_mantissa, a_scale, b_mantissa, b_scale),
        r matches Some(p) ==> valid_parts(p.0 as int, p.1 as int),
        a_mantissa == 0 ==> r == Some((b_mantissa, b_scale)),
        a_mantissa != 0 && b_mantissa == 0 ==> r == Some((a_mantissa, a_scale)),
        a_mantissa != 0 && b_mantissa != 0 && sum_fits(a_mantissa as int, a_scale as nat, b_mantissa as int, b_scale as nat)
            ==> r == Some((exact_sum(a_mantissa as int, a_scale as nat, b_mantissa as int, b_scale as nat) as i128,
            common_scale(a_scale as nat, b_scale as nat) as u32)),
        held_exactly_within(
            parts_value(a_mantissa as int, a_scale as nat) + parts_value(b_mantissa as int, b_scale as nat),
            common_scale(a_scale as nat, b_scale as nat),
        ) ==> r.is_some() && parts_value(r.unwrap().0 as int, r.unwrap().1 as nat) == parts_value(a_mantissa as int, a_scale as nat)
            + parts_value(b_mantissa as int, b_scale as nat),
{
    let a = Decimal::from_i128_with_scale(a_mantissa, a_scale);
    let b = Decimal::from_i128_with_scale(b_mantissa, b_scale);
    match a.checked_add(b) {
        Some(d) => Some((d.mantissa(), d.scale())),
        None => None,
    }
}

/// Calls `Decimal::checked_sub`. Claimed of it: the answer is the named
/// result; any decimal it returns is valid; a zero left operand gives the
/// right one negated, at its scale, and a zero right operand the left one as
/// it is; two non-zero operands whose exact difference fits in 96 bits at
/// their common scale give that difference at that scale; where `a >= b`
/// the difference is never below zero, rounded or not; and where a decimal
/// with no more fractional digits than the common scale holds the exact
/// difference, the answer is worth exactly the difference (the subtraction
/// shares the addition's code).
#[verifier::external_body]
pub(crate) fn checked_sub_parts(a_mantissa: i128, a_scale: u32, b_mantissa: i128, b_scale: u32) -> (r: Option<(i128, u32)>)
    requires
        valid_parts(a_mantissa as int, a_scale as int),
        valid_parts(b_mantissa as int, b_scale as int),
    ensures
        r == decimal_checked_sub(a_mantissa, a_scale, b_mantissa, b_scale),
        r matches Some(p) ==> valid_parts(p.0 as int, p.1 as int),
        a_mantissa == 0 ==> r == Some(((-b_mantissa) as i128, b_scale)),
        a_mantissa != 0 && b_mantissa == 0 ==> r == Some((a_mantissa, a_scale)),
        a_mantissa != 0 && b_mantissa != 0 && difference_fits(a_mantissa as int, a_scale as nat, b_mantissa as int, b_scale as nat)
            ==> r == Some((exact_difference(a_mantissa as int, a_scale as nat, b_mantissa as int, b_scale as nat) as i128,
            common_scale(a_scale as nat, b_scale as nat) as u32)),
        parts_value(b_mantissa as int, b_scale as nat) <= parts_value(a_mantissa as int, a_scale as nat)
            && r.is_some() ==> parts_value(r.unwrap().0 as int, r.unwrap().1 as nat) >= 0,
        held_exactly_within(
            parts_value(a_mantissa as int, a_scale as nat) - parts_value(b_mantissa as int, b_scale as nat),
            common_scale(a_scale as nat, b_scale as nat),
        ) ==> r.is_some() && parts_value(r.unwrap().0 as int, r.unwrap().1 as nat) == parts_value(a_mantissa as int, a_scale as nat)
            - parts_value(b_mantissa as int, b_scale as nat),
{
    let a = Decimal::from_i128_with_scale(a_mantissa, a_scale);
    let b = Decimal::from_i128_with_scale(b_mantissa, b_scale);
    match a.checked_sub(b) {
        Some(d) => Some((d.mantissa(), d.scale())),
        None => None,
    }
}

/// Calls `<` on two decimals. Claimed of it: it compares the values exactly.
#[verifier::external_body]
pub(crate) fn less_than_parts(a_mantissa: i128, a_scale: u32, b_mantissa: i128, b_scale: u32) -> (r: bool)
    requires
        valid_parts(a_mantissa as int, a_scale as int),
        valid_parts(b_mantissa as int, b_scale as int),
    ensures
        r == (parts_value(a_mantissa as int, a_scale as nat) < parts_value(b_mantissa as int, b_scale as nat)),
{
    Decimal::from_i128_with_scale(a_mantissa, a_scale) < Decimal::from_i128_with_scale(b_mantissa, b_scale)
}

/// Calls `Decimal::round_dp_with_strategy` with `RoundingStrategy::ToZero`.
/// Claimed of it: a decimal with at most `dp` fractional digits comes back as
/// it is; any other comes back at scale `dp` with its mantissa divided by
/// `10^(scale - dp)`, the fraction dropped toward zero.
#[verifier::external_body]
pub(crate) fn round_toward_zero_parts(mantissa: i128, scale: u32, dp: u32) -> (r: (i128, u32))
    requires
        valid_parts(mantissa as int, scale as int),
    ensures
        valid_parts(r.0 as int, r.1 as int),
        scale <= dp ==> r == (mantissa, scale),
        scale > dp ==> r.1 == dp && r.0 == trunc_div(mantissa as int, pow10((scale - dp) as nat)),
{
    let d = Decimal::from_i128_with_scale(mantissa, scale).round_dp_with_strategy(dp, RoundingStrategy::ToZero);
    (d.mantissa(), d.scale())
}

/// Calls `to_string` on a decimal. Claimed of it: the text is an optional
/// minus sign, the digits of the whole part, and, when the scale is positive,
/// a point followed by exactly `scale` fractional digits.
#[verifier::external_body]
pub(crate) fn parts_to_string(mantissa: i128, scale: u32) -> (r: String)
    requires
        valid_parts(mantissa as int, scale as int),
    ensures
        r@ == crate::text::decimal_text(mantissa as int, scale as nat),
{
    Decimal::from_i128_with_scale(mantissa, scale).to_string()
}

/// Calls `Decimal::from_str`. Claimed of it: the answer is the named result,
/// the error taken by its text; any decimal it returns is valid; a plainly
/// written decimal whose digits fit in 96 bits comes back exactly, its scale
/// the number of digits after the point.
#[verifier::external_body]
pub(crate) fn parts_from_str(text: &str) -> (r: Result<(i128, u32), String>)
    ensures
        match r {
            Ok(p) => decimal_from_str(text@) == Ok::<(i128, u32), Seq<char>>(p) && valid_parts(p.0 as int, p.1 as int),
            Err(e) => decimal_from_str(text@) == Err::<(i128, u32), Seq<char>>(e@),
        },
        plain_decimal_parts(text@).is_some() && -MAX_MANTISSA <= plain_decimal_parts(text@).unwrap().0 <= MAX_MANTISSA
            ==> r.is_ok() && r.unwrap().0 == plain_decimal_parts(text@).unwrap().0
            && r.unwrap().1 == plain_decimal_parts(text@).unwrap().1,
{
    match Decimal::from_str(text) {
        Ok(d) => Ok((d.mantissa(), d.scale())),
        Err(e) => Err(e.to_string()),
    }
}

} // verus!
