//! Character-level helpers shared by the normalisers and the line classifier.

use vstd::prelude::*;
use vstd::slice::slice_subrange;

verus! {

/// `String::push` appends the given character to the end of the string, so
/// the string's characters afterwards are the former ones followed by `c`.
pub assume_specification[ String::push ](s: &mut String, c: char)
    ensures
        final(s)@ == old(s)@.push(c),
;

/// The characters that count as white space around a fragment: the code
/// points with the Unicode property `White_Space`.
pub open spec fn is_space(c: char) -> bool {
    let n = c as u32;
    ||| 0x09 <= n <= 0x0D
    ||| n == 0x20
    ||| n == 0x85
    ||| n == 0xA0
    ||| n == 0x1680
    ||| 0x2000 <= n <= 0x200A
    ||| n == 0x2028
    ||| n == 0x2029
    ||| n == 0x202F
    ||| n == 0x205F
    ||| n == 0x3000
}

pub open spec fn is_digit(c: char) -> bool {
    '0' <= c <= '9'
}

/// The number a decimal digit stands for; zero for any other character.
pub open spec fn digit_value(c: char) -> nat {
    if is_digit(c) {
        (c as u32 - 48) as nat
    } else {
        0
    }
}

pub open spec fn all_digits(s: Seq<char>) -> bool {
    forall|i: int| 0 <= i < s.len() ==> is_digit(#[trigger] s[i])
}

/// The number written by a run of decimal digits, most significant first.
pub open spec fn digits_value(s: Seq<char>) -> nat
    decreases s.len(),
{
    if s.len() == 0 {
        0
    } else {
        digits_value(s.drop_last()) * 10 + digit_value(s.last())
    }
}

/// The character that writes the last decimal digit of `n`.
pub open spec fn digit_char(n: nat) -> char {
    ((n % 10) as u8 + 48u8) as char
}

/// A natural number in decimal, without leading zeros.
pub open spec fn decimal_digits(n: nat) -> Seq<char>
    decreases n,
{
    if n < 10 {
        seq![digit_char(n)]
    } else {
        decimal_digits(n / 10).push(digit_char(n))
    }
}

/// An integer in decimal, with `-` before a negative one.
pub open spec fn decimal_text(v: int) -> Seq<char> {
    if v < 0 {
        seq!['-'] + decimal_digits((-v) as nat)
    } else {
        decimal_digits(v as nat)
    }
}

pub(crate) proof fn lemma_digit_char(n: nat)
    ensures
        is_digit(digit_char(n)),
        digit_value(digit_char(n)) == n % 10,
{
}

pub open spec fn trim_start(s: Seq<char>) -> Seq<char>
    decreases s.len(),
{
    if s.len() > 0 && is_space(s.first()) {
        trim_start(s.drop_first())
    } else {
        s
    }
}

pub open spec fn trim_end(s: Seq<char>) -> Seq<char>
    decreases s.len(),
{
    if s.len() > 0 && is_space(s.last()) {
        trim_end(s.drop_last())
    } else {
        s
    }
}

/// `s` without the white space at either end.
pub open spec fn trimmed(s: Seq<char>) -> Seq<char> {
    trim_end(trim_start(s))
}

/// Reading one more digit multiplies by ten and adds it.
pub(crate) proof fn lemma_digits_value_step(s: Seq<char>, i: int)
    requires
        0 <= i < s.len(),
    ensures
        digits_value(s.take(i + 1)) == digits_value(s.take(i)) * 10 + digit_value(s[i]),
{
    assert(s.take(i + 1).drop_last() =~= s.take(i));
}

/// A prefix of a digit run never writes a larger number than the whole run.
pub(crate) proof fn lemma_digits_value_prefix(s: Seq<char>, k: int)
    requires
        0 <= k <= s.len(),
    ensures
        digits_value(s.take(k)) <= digits_value(s),
    decreases s.len() - k,
{
    if k == s.len() {
        assert(s.take(k) =~= s);
    } else {
        lemma_digits_value_prefix(s.drop_last(), k);
        assert(s.drop_last().take(k) =~= s.take(k));
    }
}

pub(crate) fn char_is_space(c: char) -> (b: bool)
    ensures
        b == is_space(c),
{
    let n: u32 = c as u32;
    (0x09 <= n && n <= 0x0D) || n == 0x20 || n == 0x85 || n == 0xA0 || n == 0x1680 || (0x2000 <= n
        && n <= 0x200A) || n == 0x2028 || n == 0x2029 || n == 0x202F || n == 0x205F || n == 0x3000
}

pub(crate) fn char_is_digit(c: char) -> (b: bool)
    ensures
        b == is_digit(c),
{
    '0' <= c && c <= '9'
}

pub(crate) fn char_digit(c: char) -> (d: u8)
    requires
        is_digit(c),
    ensures
        d == digit_value(c),
        d <= 9,
{
    (c as u32 - 48) as u8
}

pub(crate) fn digit_to_char(n: u64) -> (c: char)
    ensures
        c == digit_char(n as nat),
{
    ((n % 10) as u8 + 48u8) as char
}

/// Appends a number in decimal.
pub(crate) fn push_digits(out: &mut String, n: u64)
    ensures
        final(out)@ == old(out)@ + decimal_digits(n as nat),
    decreases n,
{
    if n >= 10 {
        push_digits(out, n / 10);
    }
    out.push(digit_to_char(n));
}

/// Appends an integer in decimal, with `-` before a negative one.
pub(crate) fn push_decimal(out: &mut String, v: i64)
    ensures
        final(out)@ == old(out)@ + decimal_text(v as int),
{
    if v < 0 {
        out.push('-');
        let magnitude: u64 = if v == i64::MIN {
            0x8000_0000_0000_0000
        } else {
            (-v) as u64
        };
        push_digits(out, magnitude);
    } else {
        push_digits(out, v as u64);
    }
}

/// Appends the characters of `part`.
pub(crate) fn push_text(out: &mut String, part: &str)
    ensures
        final(out)@ == old(out)@ + part@,
{
    for c in iter: part.chars()
        invariant
            iter.seq() == part@,
            out@ == old(out)@ + part@.take(iter.index()),
    {
        out.push(c);
    }
}

/// The characters of a string slice, in order.
pub(crate) fn to_chars(s: &str) -> (out: Vec<char>)
    ensures
        out@ == s@,
{
    let mut out: Vec<char> = Vec::new();
    for c in iter: s.chars()
        invariant
            iter.seq() == s@,
            out@ == s@.take(iter.index()),
    {
        out.push(c);
    }
    out
}

/// A string holding the given characters, in order.
pub(crate) fn to_text(s: &[char]) -> (out: String)
    ensures
        out@ == s@,
{
    let mut out = String::new();
    let mut i: usize = 0;
    while i < s.len()
        invariant
            i <= s.len(),
            out@ == s@.take(i as int),
        decreases s.len() - i,
    {
        out.push(s[i]);
        i += 1;
    }
    out
}

/// The slice without the white space at either end.
pub(crate) fn trim(s: &[char]) -> (out: &[char])
    ensures
        out@ == trimmed(s@),
{
    let n: usize = s.len();
    let mut lo: usize = 0;
    assert(s@.skip(0) =~= s@);
    while lo < n && char_is_space(s[lo])
        invariant
            lo <= n == s.len(),
            trim_start(s@) == trim_start(s@.skip(lo as int)),
        decreases n - lo,
    {
        assert(s@.skip(lo as int).drop_first() =~= s@.skip(lo + 1));
        lo += 1;
    }
    let rest = slice_subrange(s, lo, n);
    assert(rest@ =~= s@.skip(lo as int));
    let mut hi: usize = n - lo;
    assert(rest@.take(hi as int) =~= rest@);
    while hi > 0 && char_is_space(rest[hi - 1])
        invariant
            hi <= rest.len(),
            trim_end(rest@) == trim_end(rest@.take(hi as int)),
        decreases hi,
    {
        assert(rest@.take(hi as int).drop_last() =~= rest@.take(hi - 1));
        hi -= 1;
    }
    slice_subrange(rest, 0, hi)
}

pub(crate) fn is_all_digits(s: &[char]) -> (b: bool)
    ensures
        b == all_digits(s@),
{
    let mut i: usize = 0;
    while i < s.len()
        invariant
            i <= s.len(),
            all_digits(s@.take(i as int)),
        decreases s.len() - i,
    {
        if !char_is_digit(s[i]) {
            return false;
        }
        i += 1;
    }
    assert(s@.take(i as int) =~= s@);
    true
}

} // verus!
