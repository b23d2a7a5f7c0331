//! Decimal amounts as integers counted in hundredths.

use crate::errors::{ErrorView, QifParsingError};
use crate::text::{
    all_digits, char_digit, digit_value, digits_value, is_all_digits, lemma_digits_value_prefix,
    lemma_digits_value_step, to_chars, trim, trimmed,
};
use vstd::prelude::*;
use vstd::slice::slice_subrange;

verus! {

/// Where the first decimal point stands, or the length where there is none.
pub open spec fn dot_index(s: Seq<char>) -> int
    decreases s.len(),
{
    if s.len() == 0 || s.first() == '.' {
        0
    } else {
        1 + dot_index(s.drop_first())
    }
}

/// The digit at place `i` after the decimal point; zero past the end.
pub open spec fn digit_at(s: Seq<char>, i: int) -> nat {
    if 0 <= i < s.len() {
        digit_value(s[i])
    } else {
        0
    }
}

/// Whole digits and fraction digits as a count of hundredths. A third
/// fraction digit of five or more rounds the count up, which is rounding half
/// away from zero once the sign is put back.
pub open spec fn hundredths(whole: Seq<char>, fraction: Seq<char>) -> nat {
    digits_value(whole) * 100 + digit_at(fraction, 0) * 10 + digit_at(fraction, 1) + if digit_at(
        fraction,
        2,
    ) >= 5 {
        1nat
    } else {
        0nat
    }
}

pub open spec fn fraction_of(body: Seq<char>) -> Seq<char> {
    if dot_index(body) < body.len() {
        body.skip(dot_index(body) + 1)
    } else {
        Seq::empty()
    }
}

/// The hundredths written by an unsigned decimal: digits with at most one
/// point among them, and at least one digit in all.
pub open spec fn unsigned_amount(body: Seq<char>) -> Option<nat> {
    let whole = body.take(dot_index(body));
    let fraction = fraction_of(body);
    if all_digits(whole) && all_digits(fraction) && whole.len() + fraction.len() > 0 {
        Some(hundredths(whole, fraction))
    } else {
        None
    }
}

/// The hundredths written by a fragment: white space around it is dropped,
/// one leading `-` negates. `None` where the fragment is no such decimal.
pub open spec fn decimal_amount(text: Seq<char>) -> Option<int> {
    let t = trimmed(text);
    if t.len() > 0 && t.first() == '-' {
        match unsigned_amount(t.skip(1)) {
            Some(m) => Some(-(m as int)),
            None => None,
        }
    } else {
        match unsigned_amount(t) {
            Some(m) => Some(m as int),
            None => None,
        }
    }
}

/// `decimal_amount` where it fits in 64 bits.
pub open spec fn scaled_amount(text: Seq<char>) -> Option<i64> {
    match decimal_amount(text) {
        Some(v) => if i64::MIN <= v <= i64::MAX {
            Some(v as i64)
        } else {
            None
        },
        None => None,
    }
}

/// What follows the one-character tag of a line; empty for an empty line.
pub open spec fn payload_of(line: Seq<char>) -> Seq<char> {
    if line.len() > 0 {
        line.skip(1)
    } else {
        line
    }
}

/// Ten to the power `k`.
pub open spec fn pow10(k: nat) -> nat
    decreases k,
{
    if k == 0 {
        1
    } else {
        10 * pow10((k - 1) as nat)
    }
}

proof fn lemma_digits_value_below_power(s: Seq<char>)
    ensures
        digits_value(s) < pow10(s.len()),
    decreases s.len(),
{
    if s.len() > 0 {
        lemma_digits_value_below_power(s.drop_last());
        assert(digit_value(s.last()) <= 9);
    }
}

proof fn lemma_digits_value_joined(a: Seq<char>, b: Seq<char>)
    ensures
        digits_value(a + b) == digits_value(a) * pow10(b.len()) + digits_value(b),
    decreases b.len(),
{
    if b.len() == 0 {
        assert(a + b =~= a);
        assert(digits_value(a) * 1 == digits_value(a)) by (nonlinear_arith);
    } else {
        lemma_digits_value_joined(a, b.drop_last());
        assert((a + b).drop_last() =~= a + b.drop_last());
        assert((a + b).last() == b.last());
        let x = digits_value(a) as int;
        let p = pow10(b.drop_last().len()) as int;
        let y = digits_value(b.drop_last()) as int;
        let d = digit_value(b.last()) as int;
        assert(pow10(b.len()) == 10 * p);
        assert(digits_value(b) == y * 10 + d);
        assert(digits_value(a + b) == (x * p + y) * 10 + d);
        assert((x * p + y) * 10 + d == x * (10 * p) + (y * 10 + d)) by (nonlinear_arith);
    }
}

/// `hundredths` is the count of hundredths nearest to the number that the
/// digits write, and of two counts equally near it is the larger. With
/// `scale` as ten to the number of fraction digits, `whole` followed by
/// `fraction` writes the number times `scale`; the claim is stated with both
/// sides multiplied by `scale`, so that it holds of integers. With at most
/// two fraction digits nothing is rounded.
pub proof fn lemma_hundredths_is_nearest(whole: Seq<char>, fraction: Seq<char>)
    requires
        all_digits(whole),
        all_digits(fraction),
    ensures
        ({
            let scale = pow10(fraction.len()) as int;
            let exact = digits_value(whole + fraction) * 100;
            let rounded = hundredths(whole, fraction) * scale;
            &&& 2 * (rounded - exact) <= scale
            &&& 2 * (exact - rounded) < scale
            &&& fraction.len() <= 2 ==> rounded == exact
        }),
{
    let k = fraction.len();
    let scale = pow10(k) as int;
    let w = digits_value(whole) as int;
    let f = digits_value(fraction) as int;
    let d0 = digit_at(fraction, 0) as int;
    let d1 = digit_at(fraction, 1) as int;
    let d2 = digit_at(fraction, 2) as int;
    let up: int = if d2 >= 5 {
        1
    } else {
        0
    };
    let exact = digits_value(whole + fraction) * 100;
    let rounded = hundredths(whole, fraction) * scale;
    lemma_digits_value_joined(whole, fraction);
    assert(exact == (w * scale + f) * 100);
    assert(rounded == (100 * w + 10 * d0 + d1 + up) * scale);
    reveal_with_fuel(pow10, 4);
    if k == 0 {
        assert(f == 0);
        assert(rounded == exact) by (nonlinear_arith)
            requires
                exact == (w * scale + f) * 100,
                rounded == (100 * w + 10 * d0 + d1 + up) * scale,
                scale == 1,
                f == 0,
                d0 == 0,
                d1 == 0,
                up == 0,
        ;
    } else if k == 1 {
        assert(fraction.drop_last() =~= Seq::<char>::empty());
        assert(f == d0) by {
            reveal_with_fuel(digits_value, 2);
        }
        assert(rounded == exact) by (nonlinear_arith)
            requires
                exact == (w * scale + f) * 100,
                rounded == (100 * w + 10 * d0 + d1 + up) * scale,
                scale == 10,
                f == d0,
                d1 == 0,
                up == 0,
        ;
    } else if k == 2 {
        assert(fraction.drop_last().drop_last() =~= Seq::<char>::empty());
        assert(f == 10 * d0 + d1) by {
            reveal_with_fuel(digits_value, 3);
        }
        assert(rounded == exact) by (nonlinear_arith)
            requires
                exact == (w * scale + f) * 100,
                rounded == (100 * w + 10 * d0 + d1 + up) * scale,
                scale == 100,
                f == 10 * d0 + d1,
                up == 0,
        ;
    } else {
        let head = fraction.take(3);
        let rest = fraction.skip(3);
        assert(head + rest =~= fraction);
        lemma_digits_value_joined(head, rest);
        lemma_digits_value_below_power(rest);
        let t = pow10(rest.len()) as int;
        let r = digits_value(rest) as int;
        assert(head.drop_last().drop_last().drop_last() =~= Seq::<char>::empty());
        assert(digits_value(head) == 100 * d0 + 10 * d1 + d2) by {
            reveal_with_fuel(digits_value, 4);
        }
        assert(scale == 1000 * t) by {
            lemma_pow10_plus_three(rest.len());
        }
        assert(f == (100 * d0 + 10 * d1 + d2) * t + r);
        let m = d2 * t;
        let u = up * t;
        assert(rounded - exact == 1000 * u - 100 * m - 100 * r) by (nonlinear_arith)
            requires
                exact == (w * scale + f) * 100,
                rounded == (100 * w + 10 * d0 + d1 + up) * scale,
                scale == 1000 * t,
                f == (100 * d0 + 10 * d1 + d2) * t + r,
                m == d2 * t,
                u == up * t,
        ;
        assert(0 <= d2 <= 9);
        assert(0 <= r < t);
        if d2 >= 5 {
            assert(u == t) by (nonlinear_arith)
                requires
                    u == up * t,
                    up == 1,
            ;
            assert(5 * t <= m <= 9 * t) by (nonlinear_arith)
                requires
                    m == d2 * t,
                    5 <= d2 <= 9,
                    0 <= t,
            ;
        } else {
            assert(u == 0) by (nonlinear_arith)
                requires
                    u == up * t,
                    up == 0,
            ;
            assert(0 <= m <= 4 * t) by (nonlinear_arith)
                requires
                    m == d2 * t,
                    0 <= d2 <= 4,
                    0 <= t,
            ;
        }
        assert(2 * (rounded - exact) <= scale);
        assert(2 * (exact - rounded) < scale);
    }
}

proof fn lemma_pow10_plus_three(k: nat)
    ensures
        pow10(k + 3) == 1000 * pow10(k),
{
    reveal_with_fuel(pow10, 4);
}

fn find_dot(s: &[char]) -> (k: usize)
    ensures
        k == dot_index(s@),
        k <= s.len(),
{
    let mut k: usize = 0;
    assert(s@.skip(0) =~= s@);
    while k < s.len() && s[k] != '.'
        invariant
            k <= s.len(),
            dot_index(s@) == k + dot_index(s@.skip(k as int)),
        decreases s.len() - k,
    {
        assert(s@.skip(k as int).drop_first() =~= s@.skip(k + 1));
        k += 1;
    }
    k
}

/// The number a digit run writes, unless it is above `cap`.
fn digits_up_to(s: &[char], cap: u64) -> (r: Option<u64>)
    requires
        all_digits(s@),
        cap <= 1_000_000_000_000_000_000,
    ensures
        match r {
            Some(v) => v == digits_value(s@) && v <= cap,
            None => digits_value(s@) > cap,
        },
{
    let mut acc: u64 = 0;
    let mut i: usize = 0;
    while i < s.len()
        invariant
            i <= s.len(),
            all_digits(s@),
            acc == digits_value(s@.take(i as int)),
            acc <= cap <= 1_000_000_000_000_000_000,
        decreases s.len() - i,
    {
        let d: u8 = char_digit(s[i]);
        proof {
            lemma_digits_value_step(s@, i as int);
        }
        let next: u64 = acc * 10 + d as u64;
        if next > cap {
            proof {
                lemma_digits_value_prefix(s@, i + 1);
            }
            return None;
        }
        acc = next;
        i += 1;
    }
    assert(s@.take(i as int) =~= s@);
    Some(acc)
}

fn fraction_digit(s: &[char], i: usize) -> (d: u64)
    requires
        all_digits(s@),
    ensures
        d == digit_at(s@, i as int),
        d <= 9,
{
    if i < s.len() {
        char_digit(s[i]) as u64
    } else {
        0
    }
}

fn unsigned_hundredths(body: &[char]) -> (r: Option<u64>)
    ensures
        match r {
            Some(m) => unsigned_amount(body@) == Some(m as nat) && m <= 0x8000_0000_0000_0000,
            None => match unsigned_amount(body@) {
                Some(m) => m > 0x8000_0000_0000_0000,
                None => true,
            },
        },
{
    let n: usize = body.len();
    let k: usize = find_dot(body);
    let whole = slice_subrange(body, 0, k);
    let fraction = if k < n {
        slice_subrange(body, k + 1, n)
    } else {
        slice_subrange(body, n, n)
    };
    assert(whole@ =~= body@.take(k as int));
    assert(fraction@ =~= fraction_of(body@));
    if !is_all_digits(whole) || !is_all_digits(fraction) || (whole.len() == 0 && fraction.len()
        == 0) {
        return None;
    }
    match digits_up_to(whole, 92_233_720_368_547_758) {
        None => None,
        Some(units) => {
            let d0: u64 = fraction_digit(fraction, 0);
            let d1: u64 = fraction_digit(fraction, 1);
            let d2: u64 = fraction_digit(fraction, 2);
            let up: u64 = if d2 >= 5 {
                1
            } else {
                0
            };
            let m: u64 = units * 100 + d0 * 10 + d1 + up;
            if m > 0x8000_0000_0000_0000 {
                None
            } else {
                Some(m)
            }
        },
    }
}

/// The amount written by a slice of characters.
pub(crate) fn amount_of_chars(s: &[char]) -> (r: Option<i64>)
    ensures
        r == scaled_amount(s@),
{
    let t = trim(s);
    let negative = t.len() > 0 && t[0] == '-';
    let body = if negative {
        slice_subrange(t, 1, t.len())
    } else {
        t
    };
    assert(negative ==> body@ =~= t@.skip(1));
    match unsigned_hundredths(body) {
        None => None,
        Some(m) => {
            if negative {
                if m == 0x8000_0000_0000_0000 {
                    Some(i64::MIN)
                } else {
                    Some(-(m as i64))
                }
            } else if m == 0x8000_0000_0000_0000 {
                None
            } else {
                Some(m as i64)
            }
        },
    }
}

/// Reads a decimal amount and returns it in hundredths, rounded half away
/// from zero. White space around the amount is ignored; a single leading `-`
/// is the only sign; digits may stand on either side of at most one point.
/// Anything else, or an amount too large for 64 bits, is refused with the
/// text as given.
pub fn parse_amount(text: &str) -> (r: Result<i64, QifParsingError>)
    ensures
        match scaled_amount(text@) {
            Some(v) => r == Ok::<i64, QifParsingError>(v),
            None => r is Err && r->Err_0@ == ErrorView::InvalidAmount(text@),
        },
{
    let chars = to_chars(text);
    match amount_of_chars(chars.as_slice()) {
        Some(v) => Ok(v),
        None => Err(QifParsingError::InvalidAmount(text.to_owned())),
    }
}

/// Reads the amount of a tagged line: the first character is the tag and is
/// skipped, the rest is read as `parse_amount` reads it. The error holds the
/// text after the tag.
pub fn parse_number(line: &str) -> (r: Result<i64, QifParsingError>)
    ensures
        match scaled_amount(payload_of(line@)) {
            Some(v) => r == Ok::<i64, QifParsingError>(v),
            None => r is Err && r->Err_0@ == ErrorView::InvalidAmount(payload_of(line@)),
        },
{
    let chars = to_chars(line);
    let all = chars.as_slice();
    let payload = if all.len() > 0 {
        slice_subrange(all, 1, all.len())
    } else {
        all
    };
    assert(payload@ =~= payload_of(line@));
    match amount_of_chars(payload) {
        Some(v) => Ok(v),
        None => Err(QifParsingError::InvalidAmount(crate::text::to_text(payload))),
    }
}

} // verus!
