//! Amount: fixed-scale decimal values for ledger balances.
//!
//! Arithmetic keeps the full precision of the decimal; only the way an amount
//! is shown truncates it, toward zero, to exactly four decimal places.

use vstd::prelude::*;
use vstd::arithmetic::power::*;
use vstd::arithmetic::div_mod::*;
use vstd::arithmetic::mul::*;

use crate::ledger::decimal::{
    common_scale, exact_difference, held_exactly_within, exact_sum, plain_decimal_parts, rescaled,
    checked_add_parts, checked_sub_parts, decimal_checked_add, decimal_checked_sub, decimal_from_str,
    difference_fits, less_than_parts, parts_from_str, parts_to_string, parts_value, pow10,
    round_toward_zero_parts, sum_fits, trunc_div, valid_parts, MAX_MANTISSA, MAX_SCALE,
};
use crate::text::{
    abs, find_char, is_digit, frac_text, lemma_frac_text_digits, lemma_frac_text_shift, lemma_nat_text_digits,
    nat_text, push_char, push_range, sign_text, zeros,
};

verus! {

broadcast use crate::ledger::decimal::lemma_pow10_is_pow;

/// Number of decimal places with which amounts are shown.
const SCALE_DP: u32 = 4;

/// A decimal amount: deposits, withdrawals and balances.
///
/// Held as the parts of a `rust_decimal::Decimal`; its view is its value in
/// units of `10^-28`. The parts themselves are `spec_mantissa` and
/// `spec_scale`: the scale decides where later sums and differences keep every
/// digit, and every amount is `valid`.
#[derive(Clone, Copy, Debug)]
pub struct Amount {
    mantissa: i128,
    scale: u32,
}

/// An amount text that does not read as a decimal.
#[derive(Debug)]
pub struct ParseAmountError {
    /// What the decimal parser said of the text.
    pub message: String,
}

impl ParseAmountError {
    /// The parser's message.
    pub fn to_string(&self) -> (r: String)
        ensures
            r@ == self.message@,
    {
        self.message.clone()
    }
}

impl View for Amount {
    type V = int;

    open spec fn view(&self) -> int {
        parts_value(self.spec_mantissa() as int, self.spec_scale() as nat)
    }
}

/// How an amount is shown, given its value in units of `10^-4`: a minus sign
/// when negative, the digits of the whole part, a point, and exactly four
/// fractional digits.
pub open spec fn fixed4_text(v: int) -> Seq<char> {
    sign_text(v < 0) + nat_text(abs(v) / 10000) + seq!['.'] + frac_text(abs(v) % 10000, 4)
}

/// `y` is `x + a` as the decimal arithmetic computes it: a valid amount,
/// exactly the sum wherever no digit has to be dropped.
pub open spec fn added(x: Amount, a: Amount, y: Amount) -> bool {
    &&& x.checked_add_spec(a) == Some(y)
    &&& x.sum_parts(a) == Some((y.spec_mantissa(), y.spec_scale()))
    &&& y.valid()
    &&& x.sum_is_exact(a) ==> y@ == x@ + a@
    &&& x.sum_held_exactly(a) ==> y@ == x@ + a@
}

/// `y` is `x - a` as the decimal arithmetic computes it: a valid amount,
/// exactly the difference wherever no digit has to be dropped, and never
/// below zero where `x >= a`.
pub open spec fn subtracted(x: Amount, a: Amount, y: Amount) -> bool {
    &&& x.checked_sub_spec(a) == Some(y)
    &&& x.difference_parts(a) == Some((y.spec_mantissa(), y.spec_scale()))
    &&& y.valid()
    &&& x.difference_is_exact(a) ==> y@ == x@ - a@
    &&& x.difference_held_exactly(a) ==> y@ == x@ - a@
    &&& a@ <= x@ ==> y@ >= 0
}

/// The value of an amount in units of `10^-4`, the fraction beyond four
/// decimal places dropped toward zero.
pub open spec fn truncated_4dp(value: int) -> int {
    trunc_div(value, pow10(24))
}

impl Amount {
    /// The mantissa of the decimal.
    pub closed spec fn spec_mantissa(self) -> i128 {
        self.mantissa
    }

    /// The number of fractional digits of the decimal.
    pub closed spec fn spec_scale(self) -> u32 {
        self.scale
    }

    /// The amount made of the given parts.
    pub closed spec fn from_parts_spec(mantissa: i128, scale: u32) -> Amount {
        Amount { mantissa, scale }
    }

    /// The parts describe a decimal that can exist. This is the type's
    /// invariant: every amount is valid, and `use_type_invariant` says so of
    /// any amount at hand.
    #[verifier::type_invariant]
    pub open spec fn valid(self) -> bool {
        valid_parts(self.spec_mantissa() as int, self.spec_scale() as int)
    }

    /// The sum of the two amounts fits without dropping a digit.
    pub open spec fn sum_fits(self, rhs: Amount) -> bool {
        sum_fits(self.spec_mantissa() as int, self.spec_scale() as nat, rhs.spec_mantissa() as int, rhs.spec_scale() as nat)
    }

    /// The difference of the two amounts fits without dropping a digit.
    pub open spec fn difference_fits(self, rhs: Amount) -> bool {
        difference_fits(self.spec_mantissa() as int, self.spec_scale() as nat, rhs.spec_mantissa() as int, rhs.spec_scale() as nat)
    }

    /// The decimal sum drops no digit: an operand is zero, or the exact sum
    /// fits at the common scale.
    pub open spec fn sum_is_exact(self, rhs: Amount) -> bool {
        self.spec_mantissa() == 0 || rhs.spec_mantissa() == 0 || self.sum_fits(rhs)
    }

    /// The decimal difference drops no digit: an operand is zero, or the exact
    /// difference fits at the common scale.
    pub open spec fn difference_is_exact(self, rhs: Amount) -> bool {
        self.spec_mantissa() == 0 || rhs.spec_mantissa() == 0 || self.difference_fits(rhs)
    }

    /// A decimal with no more fractional digits than the two amounts' common
    /// scale holds their exact sum: the decimal sum drops no digit, though it
    /// may have to take a smaller scale.
    pub open spec fn sum_held_exactly(self, rhs: Amount) -> bool {
        held_exactly_within(self@ + rhs@, common_scale(self.spec_scale() as nat, rhs.spec_scale() as nat))
    }

    /// A decimal with no more fractional digits than the two amounts' common
    /// scale holds their exact difference.
    pub open spec fn difference_held_exactly(self, rhs: Amount) -> bool {
        held_exactly_within(self@ - rhs@, common_scale(self.spec_scale() as nat, rhs.spec_scale() as nat))
    }

    /// The decimal sum, where there is one, is worth exactly the sum of the
    /// values: no digit was dropped, whether or not the decimal had to change
    /// scale.
    pub open spec fn adds_exactly(self, rhs: Amount) -> bool {
        self.checked_add_spec(rhs) is Some ==> self.checked_add_spec(rhs).unwrap()@ == self@ + rhs@
    }

    /// The decimal difference, where there is one, is worth exactly the
    /// difference of the values.
    pub open spec fn subtracts_exactly(self, rhs: Amount) -> bool {
        self.checked_sub_spec(rhs) is Some ==> self.checked_sub_spec(rhs).unwrap()@ == self@ - rhs@
    }

    /// The parts of what `checked_add` gives: with a zero operand, those of
    /// the other operand as it is; where the exact sum fits, that sum at the
    /// common scale; otherwise those of the decimal sum, `None` on overflow.
    pub open spec fn sum_parts(self, rhs: Amount) -> Option<(i128, u32)> {
        let (am, asc, bm, bsc) = (self.spec_mantissa(), self.spec_scale(), rhs.spec_mantissa(), rhs.spec_scale());
        if am == 0 {
            Some((bm, bsc))
        } else if bm == 0 {
            Some((am, asc))
        } else if self.sum_fits(rhs) {
            Some((exact_sum(am as int, asc as nat, bm as int, bsc as nat) as i128, common_scale(asc as nat, bsc as nat) as u32))
        } else {
            decimal_checked_add(am, asc, bm, bsc)
        }
    }

    /// The parts of what `checked_sub` gives: from zero, the other operand
    /// negated at its scale; less zero, the amount as it is; where the exact
    /// difference fits, that difference at the common scale; otherwise those
    /// of the decimal difference, `None` on overflow.
    pub open spec fn difference_parts(self, rhs: Amount) -> Option<(i128, u32)> {
        let (am, asc, bm, bsc) = (self.spec_mantissa(), self.spec_scale(), rhs.spec_mantissa(), rhs.spec_scale());
        if am == 0 {
            Some(((-bm) as i128, bsc))
        } else if bm == 0 {
            Some((am, asc))
        } else if self.difference_fits(rhs) {
            Some((exact_difference(am as int, asc as nat, bm as int, bsc as nat) as i128, common_scale(asc as nat, bsc as nat) as u32))
        } else {
            decimal_checked_sub(am, asc, bm, bsc)
        }
    }

    /// What `checked_add` gives: the amount made of `sum_parts`.
    pub open spec fn checked_add_spec(self, rhs: Amount) -> Option<Amount> {
        match self.sum_parts(rhs) {
            Some(p) => Some(Amount::from_parts_spec(p.0, p.1)),
            None => None,
        }
    }

    /// What `checked_sub` gives: the amount made of `difference_parts`.
    pub open spec fn checked_sub_spec(self, rhs: Amount) -> Option<Amount> {
        match self.difference_parts(rhs) {
            Some(p) => Some(Amount::from_parts_spec(p.0, p.1)),
            None => None,
        }
    }

    /// The mantissa and the scale of the amount.
    pub fn parts(&self) -> (r: (i128, u32))
        ensures
            r == (self.spec_mantissa(), self.spec_scale()),
            self.valid(),
    {
        proof {
            use_type_invariant(self);
        }
        (self.mantissa, self.scale)
    }

    /// The amount `mantissa / 10^scale`, when a decimal can hold it.
    pub fn from_parts(mantissa: i128, scale: u32) -> (r: Option<Amount>)
        ensures
            r is Some <==> valid_parts(mantissa as int, scale as int),
            r matches Some(a) ==> a.spec_mantissa() == mantissa && a.spec_scale() == scale && a.valid(),
    {
        if -MAX_MANTISSA <= mantissa && mantissa <= MAX_MANTISSA && scale <= MAX_SCALE {
            Some(Amount { mantissa, scale })
        } else {
            None
        }
    }

    /// The amount zero, as `Decimal::default()` makes it: mantissa 0 at scale 0.
    pub open spec fn zero_spec() -> Amount {
        Amount::from_parts_spec(0, 0)
    }

    /// The amount zero.
    pub fn zero() -> (r: Amount)
        ensures
            r == Amount::zero_spec(),
            r.spec_mantissa() == 0 && r.spec_scale() == 0,
            r.valid(),
            r@ == 0,
    {
        proof {
            lemma_value_sign(0, 0);
        }
        Amount { mantissa: 0, scale: 0 }
    }

    /// Parses a decimal text into an amount, keeping every digit given.
    pub fn parse(s: &str) -> (r: Result<Amount, ParseAmountError>)
        ensures
            match r {
                Ok(a) => decimal_from_str(s@) == Ok::<(i128, u32), Seq<char>>((a.spec_mantissa(), a.spec_scale()))
                    && a.valid(),
                Err(e) => decimal_from_str(s@) == Err::<(i128, u32), Seq<char>>(e.message@),
            },
            plain_decimal_parts(s@).is_some() && -MAX_MANTISSA <= plain_decimal_parts(s@).unwrap().0 <= MAX_MANTISSA
                ==> (r matches Ok(a) && a.spec_mantissa() == plain_decimal_parts(s@).unwrap().0
                && a.spec_scale() == plain_decimal_parts(s@).unwrap().1),
    {
        match parts_from_str(s) {
            Ok(p) => Ok(Amount { mantissa: p.0, scale: p.1 }),
            Err(message) => Err(ParseAmountError { message }),
        }
    }

    /// The amount is zero.
    pub fn is_zero(&self) -> (r: bool)
        ensures
            r == (self@ == 0),
    {
        proof {
            use_type_invariant(self);
            lemma_value_sign(self.mantissa as int, self.scale as nat);
        }
        self.mantissa == 0
    }

    /// The amount is below zero.
    pub fn is_sign_negative(&self) -> (r: bool)
        ensures
            r == (self@ < 0),
    {
        proof {
            use_type_invariant(self);
            lemma_value_sign(self.mantissa as int, self.scale as nat);
        }
        self.mantissa < 0
    }

    /// The amount is smaller than `other`.
    pub fn is_less_than(&self, other: &Amount) -> (r: bool)
        ensures
            r == (self@ < other@),
    {
        proof {
            use_type_invariant(self);
            use_type_invariant(other);
        }
        less_than_parts(self.mantissa, self.scale, other.mantissa, other.scale)
    }

    /// The sum, or `None` where the decimal sum overflows.
    pub fn checked_add(self, rhs: Amount) -> (r: Option<Amount>)
        ensures
            r == self.checked_add_spec(rhs),
            r matches Some(c) ==> added(self, rhs, c),
            self.sum_is_exact(rhs) ==> r.is_some(),
            self.sum_held_exactly(rhs) ==> r.is_some(),
    {
        proof {
            use_type_invariant(self);
            use_type_invariant(rhs);
        }
        let r = checked_add_parts(self.mantissa, self.scale, rhs.mantissa, rhs.scale);
        match r {
            Some(p) => {
                let c = Amount { mantissa: p.0, scale: p.1 };
                proof {
                    if self.sum_is_exact(rhs) {
                        lemma_checked_add_value(self, rhs);
                    }
                }
                Some(c)
            },
            None => None,
        }
    }

    /// The difference, or `None` where the decimal difference overflows.
    pub fn checked_sub(self, rhs: Amount) -> (r: Option<Amount>)
        ensures
            r == self.checked_sub_spec(rhs),
            r matches Some(c) ==> subtracted(self, rhs, c),
            self.difference_is_exact(rhs) ==> r.is_some(),
            self.difference_held_exactly(rhs) ==> r.is_some(),
    {
        proof {
            use_type_invariant(self);
            use_type_invariant(rhs);
        }
        let r = checked_sub_parts(self.mantissa, self.scale, rhs.mantissa, rhs.scale);
        match r {
            Some(p) => {
                let c = Amount { mantissa: p.0, scale: p.1 };
                proof {
                    if self.difference_is_exact(rhs) {
                        lemma_checked_sub_value(self, rhs);
                    }
                }
                Some(c)
            },
            None => None,
        }
    }
    /// Shows the amount with exactly four decimal places, the digits beyond
    /// the fourth dropped toward zero: `1.234567` shows as `1.2345`, `2` as
    /// `2.0000`, `-0.00991` as `-0.0099`.
    pub fn to_string(&self) -> (r: String)
        ensures
            r@ == fixed4_text(truncated_4dp(self@)),
    {
        proof {
            use_type_invariant(self);
        }
        let (tm, ts) = round_toward_zero_parts(self.mantissa, self.scale, SCALE_DP);
        let shown = parts_to_string(tm, ts);
        let text = shown.as_str();
        let ghost mag = abs(tm as int);
        let ghost q = (mag as int / pow10(ts as nat)) as nat;
        let ghost rem = (mag as int % pow10(ts as nat)) as nat;
        let ghost prefix = sign_text(tm < 0) + nat_text(q);
        proof {
            lemma_pow_positive(10, ts as nat);
            lemma_nat_text_digits(q);
            lemma_frac_text_digits(rem, ts as nat);
            assert(text@ == prefix + if ts > 0 {
                seq!['.'] + frac_text(rem, ts as nat)
            } else {
                Seq::empty()
            });
            assert forall|j: int| 0 <= j < prefix.len() implies prefix[j] != '.' by {
                if tm < 0 {
                    if j > 0 {
                        assert(prefix[j] == nat_text(q)[j - 1]);
                    }
                } else {
                    assert(prefix[j] == nat_text(q)[j]);
                }
            }
        }
        let mut out = String::new();
        match find_char(text, '.') {
            None => {
                proof {
                    if ts > 0 {
                        assert(text@[prefix.len() as int] == '.');
                    }
                }
                push_range(&mut out, text, 0, text.unicode_len());
                push_char(&mut out, '.');
                push_char(&mut out, '0');
                push_char(&mut out, '0');
                push_char(&mut out, '0');
                push_char(&mut out, '0');
                proof {
                    assert(text@.subrange(0, text@.len() as int) =~= text@);
                    assert(rem == 0) by {
                        assert(pow10(0) == 1) by { reveal(pow); }
                    }
                    assert(frac_text(rem, 0) =~= Seq::<char>::empty());
                    assert(out@ =~= prefix + seq!['.'] + frac_text(rem, ts as nat) + zeros(4));
                }
            },
            Some(dot) => {
                proof {
                    if ts == 0 {
                        assert(text@ =~= prefix);
                        assert(text@[dot as int] == '.');
                    }
                    assert(text@[prefix.len() as int] == '.');
                    if dot < prefix.len() {
                        assert(text@[dot as int] == prefix[dot as int]);
                    }
                    assert(dot == prefix.len());
                }
                let len = text.unicode_len();
                let frac_len = len - dot - 1;
                let take = if frac_len < 4 { frac_len } else { 4 };
                push_range(&mut out, text, 0, dot);
                push_char(&mut out, '.');
                push_range(&mut out, text, dot + 1, dot + 1 + take);
                let mut k = take;
                while k < 4
                    invariant
                        take <= k <= 4,
                        out@ == text@.subrange(0, dot as int) + seq!['.'] + text@.subrange(dot + 1, dot + 1 + take) + zeros((k - take) as nat),
                    decreases 4 - k,
                {
                    push_char(&mut out, '0');
                    assert(zeros((k + 1 - take) as nat) =~= zeros((k - take) as nat).push('0'));
                    k = k + 1;
                }
                proof {
                    assert(frac_len == ts);
                    assert(text@.subrange(0, dot as int) =~= prefix);
                    assert(text@.subrange(dot + 1, dot + 1 + take) =~= frac_text(rem, ts as nat));
                    assert(out@ =~= prefix + seq!['.'] + frac_text(rem, ts as nat) + zeros((4 - ts) as nat));
                }
            },
        }
        proof {
            lemma_shown_digits(self.mantissa as int, self.scale as nat, tm as int, ts as nat);
            let v = truncated_4dp(self@);
            assert(fixed4_text(v) =~= prefix + seq!['.'] + frac_text(rem, ts as nat) + zeros((4 - ts) as nat));
        }
        out
    }
}

/// The digits shown for an amount are those of its decimal truncated to four
/// places, padded with zeros to four fractional digits.
proof fn lemma_shown_digits(m: int, s: nat, tm: int, ts: nat)
    requires
        s <= MAX_SCALE,
        s <= 4 ==> tm == m && ts == s,
        s > 4 ==> ts == 4 && tm == trunc_div(m, pow10((s - 4) as nat)),
    ensures
        ts <= 4,
        ({
            let v = truncated_4dp(parts_value(m, s));
            &&& (v < 0) == (tm < 0)
            &&& abs(v) / 10000 == abs(tm) as int / pow10(ts)
            &&& frac_text(abs(v) % 10000, 4) == frac_text((abs(tm) as int % pow10(ts)) as nat, ts)
                + zeros((4 - ts) as nat)
        }),
{
    let k = (4 - ts) as nat;
    let v = truncated_4dp(parts_value(m, s));
    lemma_pow_positive(10, ts);
    lemma_pow_positive(10, k);
    lemma_pow_adds(10, ts, k);
    assert(pow10(4) == 10000) by {
        reveal_with_fuel(pow, 5);
    }
    // |v| == |tm| * 10^k, with the sign of tm.
    if s <= 4 {
        let x = m * pow10(k);
        lemma_pow_adds(10, k, 24);
        lemma_pow_positive(10, 24);
        assert(parts_value(m, s) == x * pow10(24)) by {
            lemma_mul_is_associative(m, pow10(k), pow10(24));
        }
        if x >= 0 {
            lemma_div_by_multiple(x, pow10(24));
        } else {
            lemma_div_by_multiple(-x, pow10(24));
            lemma_mul_unary_negation(x, pow10(24));
        }
        assert(v == x);
        if m >= 0 {
            lemma_mul_nonnegative(m, pow10(k));
            assert(abs(v) == abs(tm) * pow10(k));
        } else {
            lemma_mul_strictly_positive(-m, pow10(k));
            lemma_mul_unary_negation(-m, pow10(k));
            assert(abs(v) == abs(tm) * pow10(k));
        }
    } else {
        let c = pow10((MAX_SCALE - s) as nat);
        let d = pow10((s - 4) as nat);
        lemma_pow_positive(10, (MAX_SCALE - s) as nat);
        lemma_pow_positive(10, (s - 4) as nat);
        lemma_pow_adds(10, (s - 4) as nat, (MAX_SCALE - s) as nat);
        assert(pow10(24) == d * c);
        lemma_trunc_div_cancel(m, d, c);
        assert(v == tm);
        assert(pow10(0) == 1) by { reveal(pow); }
        assert(abs(v) == abs(tm) * pow10(k));
    }
    // Split |v| at the fourth decimal place.
    let a = abs(tm) as int;
    let p = pow10(ts);
    let c = pow10(k);
    lemma_mul_nonnegative(a, c);
    assert(abs(v) / 10000 == a / p) by {
        lemma_div_denominator(a * c, c, p);
        lemma_div_by_multiple(a, c);
        lemma_mul_is_commutative(c, p);
    }
    assert(abs(v) % 10000 == (a % p) * c) by {
        lemma_mod_breakdown(a * c, c, p);
        lemma_div_by_multiple(a, c);
        lemma_mod_multiples_basic(a, c);
        lemma_mul_is_commutative(c, p);
        lemma_mul_is_commutative(c, a % p);
    }
    lemma_mod_pos_bound(a, p);
    lemma_frac_text_shift((a % p) as nat, ts, k);
}

/// Dropping a common factor from a truncating division.
proof fn lemma_trunc_div_cancel(a: int, d: int, c: int)
    requires
        d > 0,
        c > 0,
    ensures
        trunc_div(a * c, d * c) == trunc_div(a, d),
{
    if a >= 0 {
        lemma_mul_nonnegative(a, c);
        lemma_div_denominator(a * c, c, d);
        lemma_div_by_multiple(a, c);
        lemma_mul_is_commutative(c, d);
    } else {
        let b = -a;
        lemma_mul_nonnegative(b, c);
        lemma_mul_unary_negation(b, c);
        lemma_div_denominator(b * c, c, d);
        lemma_div_by_multiple(b, c);
        lemma_mul_is_commutative(c, d);
    }
}


impl vstd::std_specs::cmp::PartialEqSpecImpl for Amount {
    open spec fn obeys_eq_spec() -> bool {
        true
    }

    /// Amounts are equal when their values are, whatever their scales:
    /// `1.0 == 1.00`.
    open spec fn eq_spec(&self, other: &Amount) -> bool {
        self@ == other@
    }
}

impl PartialEq for Amount {
    fn eq(&self, other: &Amount) -> (r: bool) {
        !self.is_less_than(other) && !other.is_less_than(self)
    }
}

impl Eq for Amount {
}

impl vstd::std_specs::ops::AddSpecImpl for Amount {
    open spec fn obeys_add_spec() -> bool {
        true
    }

    /// `+` needs the decimal sum not to overflow.
    open spec fn add_req(self, rhs: Amount) -> bool {
        self.checked_add_spec(rhs) is Some
    }

    open spec fn add_spec(self, rhs: Amount) -> Amount {
        self.checked_add_spec(rhs).unwrap()
    }
}

impl core::ops::Add for Amount {
    type Output = Amount;

    /// Adds two amounts, keeping full precision.
    fn add(self, rhs: Amount) -> (r: Amount)
        ensures
            added(self, rhs, r),
    {
        self.checked_add(rhs).unwrap()
    }
}

impl vstd::std_specs::ops::SubSpecImpl for Amount {
    open spec fn obeys_sub_spec() -> bool {
        true
    }

    /// `-` needs the decimal difference not to overflow.
    open spec fn sub_req(self, rhs: Amount) -> bool {
        self.checked_sub_spec(rhs) is Some
    }

    open spec fn sub_spec(self, rhs: Amount) -> Amount {
        self.checked_sub_spec(rhs).unwrap()
    }
}

impl core::ops::Sub for Amount {
    type Output = Amount;

    /// Subtracts two amounts, keeping full precision.
    fn sub(self, rhs: Amount) -> (r: Amount)
        ensures
            subtracted(self, rhs, r),
    {
        self.checked_sub(rhs).unwrap()
    }
}

impl Default for Amount {
    /// Zero.
    fn default() -> (r: Amount)
        ensures
            r == Amount::zero_spec(),
            r.spec_mantissa() == 0 && r.spec_scale() == 0,
            r.valid(),
            r@ == 0,
    {
        Amount::zero()
    }
}

/// An amount is made of its parts: `from_parts_spec` gives back the parts it
/// is given.
pub broadcast proof fn lemma_parts(mantissa: i128, scale: u32)
    ensures
        #[trigger] Amount::from_parts_spec(mantissa, scale).spec_mantissa() == mantissa,
        Amount::from_parts_spec(mantissa, scale).spec_scale() == scale,
{
}

/// Two amounts with the same parts are the same amount.
pub broadcast proof fn lemma_parts_determine(a: Amount)
    ensures
        #[trigger] Amount::from_parts_spec(a.spec_mantissa(), a.spec_scale()) == a,
{
}


/// Zero is worth zero.
pub proof fn lemma_zero_value()
    ensures
        Amount::zero_spec()@ == 0,
        Amount::zero_spec().spec_mantissa() == 0,
        Amount::zero_spec().spec_scale() == 0,
        Amount::zero_spec().valid(),
{
    lemma_value_sign(0, 0);
}

/// The value of a mantissa rewritten at a larger scale is unchanged.
proof fn lemma_rescaled_value(m: int, s: nat, t: nat)
    requires
        s <= t <= MAX_SCALE,
    ensures
        parts_value(rescaled(m, s, t), t) == parts_value(m, s),
{
    let k = (t - s) as nat;
    let j = (MAX_SCALE - t) as nat;
    lemma_pow_adds(10, k, j);
    assert((MAX_SCALE - s) as nat == k + j);
    lemma_mul_is_associative(m, pow10(k), pow10(j));
}

/// Where the decimal sum drops no digit, it is a valid amount worth the sum.
pub proof fn lemma_checked_add_value(a: Amount, b: Amount)
    requires
        a.valid(),
        b.valid(),
        a.sum_is_exact(b),
    ensures
        a.checked_add_spec(b) matches Some(c) && c.valid() && c@ == a@ + b@,
{
    let (am, asc, bm, bsc) = (a.spec_mantissa() as int, a.spec_scale() as nat, b.spec_mantissa() as int, b.spec_scale() as nat);
    if am == 0 {
        lemma_value_sign(am, asc);
    } else if bm == 0 {
        lemma_value_sign(bm, bsc);
    } else {
        let s = common_scale(asc, bsc);
        lemma_rescaled_value(am, asc, s);
        lemma_rescaled_value(bm, bsc, s);
        lemma_mul_is_distributive_add_other_way(pow10((MAX_SCALE - s) as nat), rescaled(am, asc, s), rescaled(bm, bsc, s));
    }
}

/// Where the decimal difference drops no digit, it is a valid amount worth
/// the difference.
pub proof fn lemma_checked_sub_value(a: Amount, b: Amount)
    requires
        a.valid(),
        b.valid(),
        a.difference_is_exact(b),
    ensures
        a.checked_sub_spec(b) matches Some(c) && c.valid() && c@ == a@ - b@,
{
    let (am, asc, bm, bsc) = (a.spec_mantissa() as int, a.spec_scale() as nat, b.spec_mantissa() as int, b.spec_scale() as nat);
    if am == 0 {
        lemma_value_sign(am, asc);
        lemma_mul_unary_negation(bm, pow10((MAX_SCALE - bsc) as nat));
    } else if bm == 0 {
        lemma_value_sign(bm, bsc);
    } else {
        let s = common_scale(asc, bsc);
        lemma_rescaled_value(am, asc, s);
        lemma_rescaled_value(bm, bsc, s);
        lemma_mul_is_distributive_sub_other_way(pow10((MAX_SCALE - s) as nat), rescaled(am, asc, s), rescaled(bm, bsc, s));
    }
}

/// The value shown for an amount is its value truncated toward zero at four
/// decimal places: a whole number of `10^-4` units on the value's side of
/// zero, within one unit of the value and no farther from zero than it.
pub proof fn law_display_truncates_toward_zero(v: int)
    ensures
        v >= 0 ==> 0 <= truncated_4dp(v) && truncated_4dp(v) * pow10(24) <= v < (truncated_4dp(v) + 1) * pow10(24),
        v < 0 ==> truncated_4dp(v) <= 0 && (truncated_4dp(v) - 1) * pow10(24) < v <= truncated_4dp(v) * pow10(24),
{
    let u = pow10(24);
    if v >= 0 {
        lemma_fundamental_div_mod(v, u);
        lemma_mod_pos_bound(v, u);
        lemma_div_pos_is_pos(v, u);
    } else {
        lemma_fundamental_div_mod(-v, u);
        lemma_mod_pos_bound(-v, u);
        lemma_div_pos_is_pos(-v, u);
    }
}

/// The text shown for a value in units of `10^-4` starts with a minus sign
/// exactly when the value is below zero, and ends with a point and exactly
/// four digits.
pub proof fn law_display_text_shape(t: int)
    ensures
        fixed4_text(t).len() >= 6,
        (fixed4_text(t)[0] == '-') == (t < 0),
        fixed4_text(t)[fixed4_text(t).len() - 5] == '.',
        forall|i: int| fixed4_text(t).len() - 4 <= i < fixed4_text(t).len() ==> is_digit(#[trigger] fixed4_text(t)[i]),
{
    let a = abs(t);
    let whole = nat_text(a / 10000);
    let frac = frac_text(a % 10000, 4);
    lemma_nat_text_digits(a / 10000);
    lemma_frac_text_digits(a % 10000, 4);
    let text = fixed4_text(t);
    let prefix = sign_text(t < 0) + whole;
    assert(text == prefix + seq!['.'] + frac);
    assert(text[prefix.len() as int] == '.');
    if t >= 0 {
        assert(text[0] == whole[0]);
        assert(whole[0] != '-') by {
            assert(is_digit(whole[0]));
        }
    }
    assert forall|i: int| text.len() - 4 <= i < text.len() implies is_digit(#[trigger] text[i]) by {
        assert(text[i] == frac[i - (prefix.len() + 1)]);
    }
}

/// Adding zero changes no value: `0 + a` is `a` itself, and `a + 0` is worth
/// `a` (it is `a` itself unless `a` is a zero of another scale).
pub proof fn law_add_zero_identity(a: Amount)
    requires
        a.valid(),
    ensures
        Amount::zero_spec().checked_add_spec(a) == Some(a),
        a.checked_add_spec(Amount::zero_spec()) matches Some(c) && c@ == a@,
        a.spec_mantissa() != 0 ==> a.checked_add_spec(Amount::zero_spec()) == Some(a),
        a.checked_sub_spec(Amount::zero_spec()) matches Some(c) && c@ == a@,
{
    lemma_zero_value();
    lemma_value_sign(a.spec_mantissa() as int, a.spec_scale() as nat);
    lemma_parts_determine(a);
}

/// An amount less itself is zero.
pub proof fn law_sub_self_is_zero(a: Amount)
    requires
        a.valid(),
    ensures
        a.checked_sub_spec(a) matches Some(c) && c@ == 0,
{
    lemma_checked_sub_value(a, a);
}

/// The order of the operands does not change the value of a sum, wherever
/// no digit is dropped.
pub proof fn law_add_commutes(a: Amount, b: Amount)
    requires
        a.valid(),
        b.valid(),
        a.sum_is_exact(b),
    ensures
        b.sum_is_exact(a),
        a.checked_add_spec(b) matches Some(c) && b.checked_add_spec(a) matches Some(d) && c@ == d@ && c@ == a@ + b@,
{
    lemma_checked_add_value(a, b);
    lemma_checked_add_value(b, a);
}

/// The grouping of three operands does not change the value of their sum,
/// wherever no digit is dropped.
pub proof fn law_add_associates(a: Amount, b: Amount, c: Amount)
    requires
        a.valid(),
        b.valid(),
        c.valid(),
        a.sum_is_exact(b),
        b.sum_is_exact(c),
        a.checked_add_spec(b).unwrap().sum_is_exact(c),
        a.sum_is_exact(b.checked_add_spec(c).unwrap()),
    ensures
        a.checked_add_spec(b).unwrap().checked_add_spec(c) matches Some(l) && a.checked_add_spec(
            b.checked_add_spec(c).unwrap(),
        ) matches Some(r) && l@ == r@ && l@ == a@ + b@ + c@,
{
    lemma_checked_add_value(a, b);
    lemma_checked_add_value(b, c);
    lemma_checked_add_value(a.checked_add_spec(b).unwrap(), c);
    lemma_checked_add_value(a, b.checked_add_spec(c).unwrap());
}

/// Taking `b` away and adding it back gives the value one started from,
/// wherever neither step drops a digit.
pub proof fn law_sub_then_add_restores(a: Amount, b: Amount)
    requires
        a.valid(),
        b.valid(),
        a.difference_is_exact(b),
        a.checked_sub_spec(b).unwrap().sum_is_exact(b),
    ensures
        a.checked_sub_spec(b).unwrap().checked_add_spec(b).unwrap()@ == a@,
{
    lemma_checked_sub_value(a, b);
    lemma_checked_add_value(a.checked_sub_spec(b).unwrap(), b);
}

/// A value that a decimal with at most `s` decimal places can hold.
pub open spec fn holds_at_scale(v: int, s: nat) -> bool {
    let bound = MAX_MANTISSA * pow10((MAX_SCALE - s) as nat);
    -bound <= v <= bound
}

/// A mantissa at a scale `c <= s` whose value a decimal with `s` decimal
/// places can hold fits in 96 bits.
proof fn lemma_mantissa_at_scale(m: int, c: nat, s: nat)
    requires
        c <= s <= MAX_SCALE,
        holds_at_scale(m * pow10((MAX_SCALE - c) as nat), s),
    ensures
        -MAX_MANTISSA <= m <= MAX_MANTISSA,
{
    let pc = pow10((MAX_SCALE - c) as nat);
    let ps = pow10((MAX_SCALE - s) as nat);
    lemma_pow_increases(10, (MAX_SCALE - s) as nat, (MAX_SCALE - c) as nat);
    lemma_pow_positive(10, (MAX_SCALE - s) as nat);
    if m > MAX_MANTISSA {
        lemma_mul_inequality(MAX_MANTISSA + 1, m, pc);
        lemma_mul_inequality(ps, pc, MAX_MANTISSA + 1);
        lemma_mul_is_commutative(ps, MAX_MANTISSA + 1);
        lemma_mul_is_distributive_add_other_way(ps, MAX_MANTISSA as int, 1);
        lemma_mul_is_commutative(MAX_MANTISSA + 1, pc);
    } else if m < -MAX_MANTISSA {
        lemma_mul_inequality(MAX_MANTISSA + 1, -m, pc);
        lemma_mul_inequality(ps, pc, MAX_MANTISSA + 1);
        lemma_mul_is_commutative(ps, MAX_MANTISSA + 1);
        lemma_mul_is_distributive_add_other_way(ps, MAX_MANTISSA as int, 1);
        lemma_mul_is_commutative(MAX_MANTISSA + 1, pc);
        lemma_mul_unary_negation(-m, pc);
    }
}

/// Two amounts with at most `s` decimal places whose sum a decimal with `s`
/// places can hold add exactly, and the sum has at most `s` decimal places.
pub proof fn lemma_sum_at_scale(a: Amount, b: Amount, s: nat)
    requires
        a.valid(),
        b.valid(),
        s <= MAX_SCALE,
        a.spec_scale() <= s,
        b.spec_scale() <= s,
        holds_at_scale(a@ + b@, s),
    ensures
        a.sum_is_exact(b),
        a.checked_add_spec(b) matches Some(c) && c.valid() && c.spec_scale() <= s && c@ == a@ + b@,
{
    let (am, asc, bm, bsc) = (a.spec_mantissa() as int, a.spec_scale() as nat, b.spec_mantissa() as int, b.spec_scale() as nat);
    if am != 0 && bm != 0 {
        let c = common_scale(asc, bsc);
        lemma_rescaled_value(am, asc, c);
        lemma_rescaled_value(bm, bsc, c);
        lemma_mul_is_distributive_add_other_way(pow10((MAX_SCALE - c) as nat), rescaled(am, asc, c), rescaled(bm, bsc, c));
        lemma_mantissa_at_scale(exact_sum(am, asc, bm, bsc), c, s);
    }
    lemma_checked_add_value(a, b);
}

/// Two amounts with at most `s` decimal places whose difference a decimal
/// with `s` places can hold subtract exactly, and the difference has at most
/// `s` decimal places.
pub proof fn lemma_difference_at_scale(a: Amount, b: Amount, s: nat)
    requires
        a.valid(),
        b.valid(),
        s <= MAX_SCALE,
        a.spec_scale() <= s,
        b.spec_scale() <= s,
        holds_at_scale(a@ - b@, s),
    ensures
        a.difference_is_exact(b),
        a.checked_sub_spec(b) matches Some(c) && c.valid() && c.spec_scale() <= s && c@ == a@ - b@,
{
    let (am, asc, bm, bsc) = (a.spec_mantissa() as int, a.spec_scale() as nat, b.spec_mantissa() as int, b.spec_scale() as nat);
    if am != 0 && bm != 0 {
        let c = common_scale(asc, bsc);
        lemma_rescaled_value(am, asc, c);
        lemma_rescaled_value(bm, bsc, c);
        lemma_mul_is_distributive_sub_other_way(pow10((MAX_SCALE - c) as nat), rescaled(am, asc, c), rescaled(bm, bsc, c));
        lemma_mantissa_at_scale(exact_difference(am, asc, bm, bsc), c, s);
    }
    lemma_checked_sub_value(a, b);
}

/// The value of a decimal has the sign of its mantissa.
proof fn lemma_value_sign(mantissa: int, scale: nat)
    requires
        scale <= MAX_SCALE,
    ensures
        (parts_value(mantissa, scale) == 0) == (mantissa == 0),
        (parts_value(mantissa, scale) < 0) == (mantissa < 0),
{
    let p = pow10((MAX_SCALE - scale) as nat);
    lemma_pow_positive(10, (MAX_SCALE - scale) as nat);
    if mantissa > 0 {
        lemma_mul_strictly_positive(mantissa, p);
    } else if mantissa < 0 {
        lemma_mul_strictly_positive(-mantissa, p);
        lemma_mul_unary_negation(-mantissa, p);
    } else {
        lemma_mul_basics(p);
    }
}

} // verus!
