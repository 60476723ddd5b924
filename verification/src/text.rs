//! Decimal digits as text: the specifications of how numbers are written and
//! the verified functions that write them.

use vstd::prelude::*;
use vstd::arithmetic::power::*;
use vstd::arithmetic::div_mod::*;
use vstd::arithmetic::mul::*;

use crate::ledger::decimal::pow10;

verus! {

broadcast use crate::ledger::decimal::lemma_pow10_is_pow;

/// The character of a decimal digit `0..=9`.
pub open spec fn digit_char(d: int) -> char {
    if d == 0 {
        '0'
    } else if d == 1 {
        '1'
    } else if d == 2 {
        '2'
    } else if d == 3 {
        '3'
    } else if d == 4 {
        '4'
    } else if d == 5 {
        '5'
    } else if d == 6 {
        '6'
    } else if d == 7 {
        '7'
    } else if d == 8 {
        '8'
    } else {
        '9'
    }
}

/// A character that is one of the ten decimal digits.
pub open spec fn is_digit(c: char) -> bool {
    exists|d: int| 0 <= d < 10 && c == #[trigger] digit_char(d)
}

/// The decimal digits of `n`, without leading zeros (`"0"` for zero).
pub open spec fn nat_text(n: nat) -> Seq<char>
    decreases n,
{
    if n < 10 {
        seq![digit_char(n as int)]
    } else {
        nat_text(n / 10).push(digit_char((n % 10) as int))
    }
}

/// The last `width` decimal digits of `n`, padded with leading zeros.
pub open spec fn frac_text(n: nat, width: nat) -> Seq<char>
    decreases width,
{
    if width == 0 {
        Seq::empty()
    } else {
        frac_text(n / 10, (width - 1) as nat).push(digit_char((n % 10) as int))
    }
}

/// `k` zero digits.
pub open spec fn zeros(k: nat) -> Seq<char> {
    Seq::new(k, |i: int| '0')
}

/// A minus sign when `negative`, nothing otherwise.
pub open spec fn sign_text(negative: bool) -> Seq<char> {
    if negative {
        seq!['-']
    } else {
        Seq::empty()
    }
}

/// `|a|`.
pub open spec fn abs(a: int) -> nat {
    if a < 0 {
        (-a) as nat
    } else {
        a as nat
    }
}

/// How `mantissa / 10^scale` is written: an optional minus sign, the digits of
/// the whole part, then, for a positive scale, a point and exactly `scale`
/// fractional digits.
pub open spec fn decimal_text(mantissa: int, scale: nat) -> Seq<char> {
    let mag = abs(mantissa);
    sign_text(mantissa < 0) + nat_text(((mag as int) / pow10(scale)) as nat) + if scale > 0 {
        seq!['.'] + frac_text(((mag as int) % pow10(scale)) as nat, scale)
    } else {
        Seq::empty()
    }
}

pub proof fn lemma_digit_char(d: int)
    ensures
        is_digit(digit_char(d)),
        digit_char(d) != '.',
        digit_char(d) != '-',
{
    if 0 <= d < 10 {
        assert(is_digit(digit_char(d)));
    } else {
        assert(digit_char(d) == digit_char(9));
        assert(is_digit(digit_char(9)));
    }
}

/// The digits of a number hold no point and no sign.
pub proof fn lemma_nat_text_digits(n: nat)
    ensures
        nat_text(n).len() >= 1,
        forall|i: int| 0 <= i < nat_text(n).len() ==> is_digit(#[trigger] nat_text(n)[i]),
        forall|i: int| 0 <= i < nat_text(n).len() ==> #[trigger] nat_text(n)[i] != '.',
    decreases n,
{
    if n < 10 {
        lemma_digit_char(n as int);
    } else {
        lemma_nat_text_digits(n / 10);
        lemma_digit_char((n % 10) as int);
        assert forall|i: int| 0 <= i < nat_text(n).len() implies is_digit(#[trigger] nat_text(n)[i])
            && nat_text(n)[i] != '.' by {
            if i < nat_text(n / 10).len() {
                assert(nat_text(n)[i] == nat_text(n / 10)[i]);
            }
        }
    }
}

/// Fractional digits come out `width` long and hold no point.
pub proof fn lemma_frac_text_digits(n: nat, width: nat)
    ensures
        frac_text(n, width).len() == width,
        forall|i: int| 0 <= i < width ==> is_digit(#[trigger] frac_text(n, width)[i]),
    decreases width,
{
    if width > 0 {
        lemma_frac_text_digits(n / 10, (width - 1) as nat);
        lemma_digit_char((n % 10) as int);
        assert forall|i: int| 0 <= i < width implies is_digit(#[trigger] frac_text(n, width)[i]) by {
            if i < width - 1 {
                assert(frac_text(n, width)[i] == frac_text(n / 10, (width - 1) as nat)[i]);
            }
        }
    }
}

/// Multiplying by `10^k` appends `k` zeros to the fractional digits.
pub proof fn lemma_frac_text_shift(n: nat, width: nat, k: nat)
    ensures
        frac_text((n * pow10(k)) as nat, width + k) == frac_text(n, width) + zeros(k),
    decreases k,
{
    reveal(pow);
    if k == 0 {
        assert(pow10(0) == 1);
        assert(n * pow10(k) == n);
        assert(frac_text(n, width) + zeros(0) =~= frac_text(n, width));
    } else {
        let k1 = (k - 1) as nat;
        lemma_frac_text_shift(n, width, k1);
        lemma_pow_positive(10, k1);
        assert(pow10(k) == 10 * pow10(k1));
        let m = n * pow10(k1);
        assert(n * pow10(k) == m * 10) by {
            lemma_mul_is_associative(n as int, pow10(k1), 10);
            lemma_mul_is_commutative(pow10(k1), 10);
        }
        lemma_mul_nonnegative(n as int, pow10(k1));
        assert((m * 10) / 10 == m) by {
            lemma_div_multiples_vanish(m, 10);
            lemma_mul_is_commutative(m, 10);
        }
        assert((m * 10) % 10 == 0) by {
            lemma_mod_multiples_basic(m, 10);
        }
        assert(frac_text((n * pow10(k)) as nat, width + k) == frac_text(m as nat, width + k1).push('0'));
        assert(frac_text(n, width) + zeros(k) =~= (frac_text(n, width) + zeros(k1)).push('0'));
    }
}

/// Appends `c` to `s`: `String::push`.
#[verifier::external_body]
pub(crate) fn push_char(s: &mut String, c: char)
    ensures
        final(s)@ == old(s)@.push(c),
{
    s.push(c);
}

/// The character of a digit.
pub fn digit(d: u8) -> (c: char)
    requires
        d < 10,
    ensures
        c == digit_char(d as int),
{
    match d {
        0 => '0',
        1 => '1',
        2 => '2',
        3 => '3',
        4 => '4',
        5 => '5',
        6 => '6',
        7 => '7',
        8 => '8',
        _ => '9',
    }
}

/// Appends the decimal digits of `n` to `s`.
pub fn push_nat_text(s: &mut String, n: u128)
    ensures
        final(s)@ == old(s)@ + nat_text(n as nat),
    decreases n,
{
    if n < 10 {
        push_char(s, digit(n as u8));
        assert(old(s)@.push(digit_char(n as int)) =~= old(s)@ + nat_text(n as nat));
    } else {
        push_nat_text(s, n / 10);
        push_char(s, digit((n % 10) as u8));
        assert(final(s)@ =~= old(s)@ + nat_text(n as nat));
    }
}

/// How an unsigned integer is written: its decimal digits.
pub fn u64_text(n: u64) -> (r: String)
    ensures
        r@ == nat_text(n as nat),
{
    let mut s = String::new();
    push_nat_text(&mut s, n as u128);
    assert(s@ =~= nat_text(n as nat));
    s
}

/// The position of the first `c` in `text`, if it holds one.
pub fn find_char(text: &str, c: char) -> (r: Option<usize>)
    ensures
        match r {
            Some(i) => i < text@.len() && text@[i as int] == c && forall|j: int| 0 <= j < i ==> text@[j] != c,
            None => forall|j: int| 0 <= j < text@.len() ==> text@[j] != c,
        },
{
    let n = text.unicode_len();
    let mut i: usize = 0;
    while i < n
        invariant
            i <= n,
            n == text@.len(),
            forall|j: int| 0 <= j < i ==> text@[j] != c,
        decreases n - i,
    {
        if text.get_char(i) == c {
            return Some(i);
        }
        i = i + 1;
    }
    None
}

/// Appends the characters of `text` from `from` up to `to` to `s`.
pub fn push_range(s: &mut String, text: &str, from: usize, to: usize)
    requires
        from <= to <= text@.len(),
    ensures
        final(s)@ == old(s)@ + text@.subrange(from as int, to as int),
{
    let mut i = from;
    while i < to
        invariant
            from <= i <= to,
            to <= text@.len(),
            s@ == old(s)@ + text@.subrange(from as int, i as int),
        decreases to - i,
    {
        push_char(s, text.get_char(i));
        assert(s@ =~= old(s)@ + text@.subrange(from as int, i + 1));
        i = i + 1;
    }
}

} // verus!
