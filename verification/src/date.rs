//! Calendar dates read under a caller's pattern and written as `YYYY-MM-DD`.
//!
//! A pattern is made of four tokens and of literal characters. `%d` and `%m`
//! read one or two digits, as many as stand there; `%y` reads exactly two and
//! `%Y` exactly four. Every other character of the pattern must be met by the
//! same character of the text. Day, month and year must each be read once.

use crate::errors::{ErrorView, QifParsingError};
use crate::text::{
    char_digit, char_is_digit, digit_char, digit_to_char, digits_value, is_digit,
    lemma_digit_char, lemma_digits_value_step, to_chars,
};
use vstd::prelude::*;
use vstd::slice::slice_subrange;

verus! {

/// What has been read of a date so far.
pub struct DateFields {
    pub day: Option<nat>,
    pub month: Option<nat>,
    pub year: Option<nat>,
}

pub open spec fn no_fields() -> DateFields {
    DateFields { day: None, month: None, year: None }
}

/// How many digits `t` starts with, counting no further than `most`.
pub open spec fn digit_run(t: Seq<char>, most: nat) -> nat
    decreases most,
{
    if most > 0 && t.len() > 0 && is_digit(t.first()) {
        1 + digit_run(t.drop_first(), (most - 1) as nat)
    } else {
        0
    }
}

/// The fewest and the most digits that the token `%k` reads.
pub open spec fn token_widths(k: char) -> Option<(nat, nat)> {
    if k == 'd' || k == 'm' {
        Some((1nat, 2nat))
    } else if k == 'y' {
        Some((2nat, 2nat))
    } else if k == 'Y' {
        Some((4nat, 4nat))
    } else {
        None
    }
}

/// The year that a two-digit year stands for: up to 68 in the 2000s, from 69
/// on in the 1900s.
pub open spec fn full_year(two_digits: nat) -> nat {
    if two_digits <= 68 {
        2000 + two_digits
    } else {
        1900 + two_digits
    }
}

/// `f` with the number read by token `%k` put in its place; `None` where that
/// place is taken already.
pub open spec fn placed(f: DateFields, k: char, v: nat) -> Option<DateFields> {
    if k == 'd' {
        if f.day is None {
            Some(DateFields { day: Some(v), ..f })
        } else {
            None
        }
    } else if k == 'm' {
        if f.month is None {
            Some(DateFields { month: Some(v), ..f })
        } else {
            None
        }
    } else if k == 'y' {
        if f.year is None {
            Some(DateFields { year: Some(full_year(v)), ..f })
        } else {
            None
        }
    } else if k == 'Y' {
        if f.year is None {
            Some(DateFields { year: Some(v), ..f })
        } else {
            None
        }
    } else {
        None
    }
}

/// Reads the text `t` under the pattern `p`, starting from the fields `f`.
/// `None` where the text does not follow the pattern to its end, where the
/// pattern holds a `%` that starts no token, or where a field is read twice.
pub open spec fn scan(p: Seq<char>, t: Seq<char>, f: DateFields) -> Option<DateFields>
    decreases p.len(),
{
    if p.len() == 0 {
        if t.len() == 0 {
            Some(f)
        } else {
            None
        }
    } else if p.first() != '%' {
        if t.len() > 0 && t.first() == p.first() {
            scan(p.drop_first(), t.drop_first(), f)
        } else {
            None
        }
    } else if p.len() < 2 {
        None
    } else {
        match token_widths(p[1]) {
            Some((least, most)) => {
                let n = digit_run(t, most);
                match placed(f, p[1], digits_value(t.take(n as int))) {
                    Some(g) => if n >= least {
                        scan(p.skip(2), t.skip(n as int), g)
                    } else {
                        None
                    },
                    None => None,
                }
            },
            None => None,
        }
    }
}

pub open spec fn is_leap_year(year: nat) -> bool {
    year % 4 == 0 && (year % 100 != 0 || year % 400 == 0)
}

pub open spec fn days_in_month(year: nat, month: nat) -> nat {
    if month == 2 {
        if is_leap_year(year) {
            29
        } else {
            28
        }
    } else if month == 4 || month == 6 || month == 9 || month == 11 {
        30
    } else {
        31
    }
}

/// Whether the three numbers name a day of the Gregorian calendar, in a year
/// of at most four digits.
pub open spec fn is_calendar_date(year: nat, month: nat, day: nat) -> bool {
    &&& year <= 9999
    &&& 1 <= month <= 12
    &&& 1 <= day <= days_in_month(year, month)
}

/// Year, month and day as ten characters: `YYYY-MM-DD`.
pub open spec fn canonical_date(year: nat, month: nat, day: nat) -> Seq<char> {
    seq![
        digit_char(year / 1000),
        digit_char(year / 100),
        digit_char(year / 10),
        digit_char(year),
        '-',
        digit_char(month / 10),
        digit_char(month),
        '-',
        digit_char(day / 10),
        digit_char(day),
    ]
}

/// The canonical form of the date that `text` writes under `pattern`; `None`
/// where it writes none.
pub open spec fn normalized_date(text: Seq<char>, pattern: Seq<char>) -> Option<Seq<char>> {
    match scan(pattern, text, no_fields()) {
        Some(f) => if f.day is Some && f.month is Some && f.year is Some && is_calendar_date(
            f.year->0,
            f.month->0,
            f.day->0,
        ) {
            Some(canonical_date(f.year->0, f.month->0, f.day->0))
        } else {
            None
        },
        None => None,
    }
}

/// The pattern under which a canonical date reads as itself.
pub open spec fn canonical_pattern() -> Seq<char> {
    seq!['%', 'Y', '-', '%', 'm', '-', '%', 'd']
}

/// A text that starts with `most` digits has a digit run of that length.
proof fn lemma_digit_run_full(t: Seq<char>, most: nat)
    requires
        most <= t.len(),
        forall|i: int| 0 <= i < most ==> is_digit(#[trigger] t[i]),
    ensures
        digit_run(t, most) == most,
    decreases most,
{
    if most > 0 {
        assert(is_digit(t[0]));
        assert forall|i: int| 0 <= i < most - 1 implies is_digit(#[trigger] t.drop_first()[i]) by {
            assert(t.drop_first()[i] == t[i + 1]);
        }
        lemma_digit_run_full(t.drop_first(), (most - 1) as nat);
    }
}

proof fn lemma_two_digits(n: nat)
    requires
        n <= 99,
    ensures
        digits_value(seq![digit_char(n / 10), digit_char(n)]) == n,
{
    let s = seq![digit_char(n / 10), digit_char(n)];
    lemma_digit_char(n / 10);
    lemma_digit_char(n);
    assert(s.drop_last() =~= seq![digit_char(n / 10)]);
    assert(s.drop_last().drop_last() =~= Seq::<char>::empty());
    reveal_with_fuel(digits_value, 3);
}

proof fn lemma_four_digits(n: nat)
    requires
        n <= 9999,
    ensures
        digits_value(
            seq![digit_char(n / 1000), digit_char(n / 100), digit_char(n / 10), digit_char(n)],
        ) == n,
{
    let s = seq![digit_char(n / 1000), digit_char(n / 100), digit_char(n / 10), digit_char(n)];
    lemma_digit_char(n / 1000);
    lemma_digit_char(n / 100);
    lemma_digit_char(n / 10);
    lemma_digit_char(n);
    let s3 = s.drop_last();
    let s2 = s3.drop_last();
    let s1 = s2.drop_last();
    assert(s1.drop_last() =~= Seq::<char>::empty());
    assert(digits_value(s1) == n / 1000) by {
        reveal_with_fuel(digits_value, 2);
    }
    assert(digits_value(s2) == n / 100);
    assert(digits_value(s3) == n / 10);
}

/// Under the canonical pattern, a canonical date reads as the day it writes.
pub proof fn lemma_scan_canonical(year: nat, month: nat, day: nat)
    requires
        year <= 9999,
        month <= 99,
        day <= 99,
    ensures
        scan(canonical_pattern(), canonical_date(year, month, day), no_fields()) == Some(
            DateFields { day: Some(day), month: Some(month), year: Some(year) },
        ),
{
    let pat0 = canonical_pattern();
    let txt0 = canonical_date(year, month, day);
    let f0 = no_fields();
    lemma_digit_char(year / 1000);
    lemma_digit_char(year / 100);
    lemma_digit_char(year / 10);
    lemma_digit_char(year);
    lemma_digit_char(month / 10);
    lemma_digit_char(month);
    lemma_digit_char(day / 10);
    lemma_digit_char(day);

    // the year
    lemma_digit_run_full(txt0, 4);
    lemma_four_digits(year);
    assert(txt0.take(4) =~= seq![
        digit_char(year / 1000),
        digit_char(year / 100),
        digit_char(year / 10),
        digit_char(year),
    ]);
    let f1 = DateFields { day: None, month: None, year: Some(year) };
    let pat1 = pat0.skip(2);
    let txt1 = txt0.skip(4);
    assert(scan(pat0, txt0, f0) == scan(pat1, txt1, f1));

    // the first hyphen
    let pat2 = pat1.drop_first();
    let txt2 = txt1.drop_first();
    assert(scan(pat1, txt1, f1) == scan(pat2, txt2, f1));

    // the month
    lemma_digit_run_full(txt2, 2);
    lemma_two_digits(month);
    assert(txt2.take(2) =~= seq![digit_char(month / 10), digit_char(month)]);
    let f3 = DateFields { day: None, month: Some(month), year: Some(year) };
    let pat3 = pat2.skip(2);
    let txt3 = txt2.skip(2);
    assert(scan(pat2, txt2, f1) == scan(pat3, txt3, f3));

    // the second hyphen
    let pat4 = pat3.drop_first();
    let txt4 = txt3.drop_first();
    assert(scan(pat3, txt3, f3) == scan(pat4, txt4, f3));

    // the day
    lemma_digit_run_full(txt4, 2);
    lemma_two_digits(day);
    assert(txt4.take(2) =~= seq![digit_char(day / 10), digit_char(day)]);
    let f5 = DateFields { day: Some(day), month: Some(month), year: Some(year) };
    let pat5 = pat4.skip(2);
    let txt5 = txt4.skip(2);
    assert(scan(pat4, txt4, f3) == scan(pat5, txt5, f5));
    assert(pat5.len() == 0 && txt5.len() == 0);
}

/// A canonical date is a fixed point: whatever text and pattern a date was
/// read from, reading its canonical form under `%Y-%m-%d` gives that same
/// canonical form.
pub proof fn lemma_canonical_date_reads_as_itself(text: Seq<char>, pattern: Seq<char>)
    requires
        normalized_date(text, pattern) is Some,
    ensures
        "%Y-%m-%d"@ == canonical_pattern(),
        normalized_date(normalized_date(text, pattern)->0, "%Y-%m-%d"@) == normalized_date(
            text,
            pattern,
        ),
{
    reveal_strlit("%Y-%m-%d");
    assert("%Y-%m-%d"@ =~= canonical_pattern());
    let f = scan(pattern, text, no_fields())->0;
    lemma_scan_canonical(f.year->0, f.month->0, f.day->0);
}

/// The fields as the reader holds them while it runs.
struct Reading {
    day: Option<u32>,
    month: Option<u32>,
    year: Option<u32>,
}

impl Reading {
    spec fn fields(&self) -> DateFields {
        DateFields {
            day: match self.day {
                Some(v) => Some(v as nat),
                None => None,
            },
            month: match self.month {
                Some(v) => Some(v as nat),
                None => None,
            },
            year: match self.year {
                Some(v) => Some(v as nat),
                None => None,
            },
        }
    }

    spec fn small(&self) -> bool {
        &&& self.day matches Some(v) ==> v <= 9999
        &&& self.month matches Some(v) ==> v <= 9999
        &&& self.year matches Some(v) ==> v <= 9999
    }
}

fn widths_of(k: char) -> (r: Option<(usize, usize)>)
    ensures
        match r {
            Some((least, most)) => token_widths(k) == Some((least as nat, most as nat)) && most
                <= 4,
            None => token_widths(k) is None,
        },
{
    if k == 'd' || k == 'm' {
        Some((1, 2))
    } else if k == 'y' {
        Some((2, 2))
    } else if k == 'Y' {
        Some((4, 4))
    } else {
        None
    }
}

/// Counts and reads the digits at the start of `t`, no more than `most`.
fn read_digits(t: &[char], most: usize) -> (r: (usize, u32))
    requires
        most <= 4,
    ensures
        r.0 == digit_run(t@, most as nat),
        r.0 <= most,
        r.0 <= t.len(),
        r.1 == digits_value(t@.take(r.0 as int)),
        r.1 <= 9999,
        r.0 <= 2 ==> r.1 <= 99,
{
    let mut n: usize = 0;
    let mut value: u32 = 0;
    assert(t@.skip(0) =~= t@);
    while n < most && n < t.len() && char_is_digit(t[n])
        invariant
            n <= most <= 4,
            n <= t.len(),
            digit_run(t@, most as nat) == n + digit_run(t@.skip(n as int), (most - n) as nat),
            value == digits_value(t@.take(n as int)),
            n == 0 ==> value == 0,
            n == 1 ==> value <= 9,
            n == 2 ==> value <= 99,
            n == 3 ==> value <= 999,
            n == 4 ==> value <= 9999,
        decreases most - n,
    {
        let d: u8 = char_digit(t[n]);
        proof {
            lemma_digits_value_step(t@, n as int);
            assert(t@.skip(n as int).drop_first() =~= t@.skip(n + 1));
        }
        value = value * 10 + d as u32;
        n += 1;
    }
    (n, value)
}

fn place(f: Reading, k: char, v: u32) -> (r: Option<Reading>)
    requires
        f.small(),
        v <= 9999,
        token_widths(k) is Some,
        k == 'y' ==> v <= 99,
    ensures
        match r {
            Some(g) => placed(f.fields(), k, v as nat) == Some(g.fields()) && g.small(),
            None => placed(f.fields(), k, v as nat) is None,
        },
{
    if k == 'd' {
        if f.day.is_none() {
            Some(Reading { day: Some(v), month: f.month, year: f.year })
        } else {
            None
        }
    } else if k == 'm' {
        if f.month.is_none() {
            Some(Reading { day: f.day, month: Some(v), year: f.year })
        } else {
            None
        }
    } else if f.year.is_none() {
        let year: u32 = if k == 'Y' {
            v
        } else if v <= 68 {
            2000 + v
        } else {
            1900 + v
        };
        Some(Reading { day: f.day, month: f.month, year: Some(year) })
    } else {
        None
    }
}

fn month_length(year: u32, month: u32) -> (n: u32)
    ensures
        n == days_in_month(year as nat, month as nat),
{
    if month == 2 {
        if year % 4 == 0 && (year % 100 != 0 || year % 400 == 0) {
            29
        } else {
            28
        }
    } else if month == 4 || month == 6 || month == 9 || month == 11 {
        30
    } else {
        31
    }
}

/// Reads `t` under `p` from the start.
fn scan_chars(t: &[char], p: &[char]) -> (r: Option<Reading>)
    ensures
        match r {
            Some(f) => scan(p@, t@, no_fields()) == Some(f.fields()) && f.small(),
            None => scan(p@, t@, no_fields()) is None,
        },
{
    let mut fields = Reading { day: None, month: None, year: None };
    let mut pi: usize = 0;
    let mut ti: usize = 0;
    assert(t@.skip(0) =~= t@);
    assert(p@.skip(0) =~= p@);
    while pi < p.len()
        invariant
            pi <= p.len(),
            ti <= t.len(),
            fields.small(),
            scan(p@, t@, no_fields()) == scan(p@.skip(pi as int), t@.skip(ti as int), fields.fields()),
        decreases p.len() - pi,
    {
        let ghost ps = p@.skip(pi as int);
        let ghost ts = t@.skip(ti as int);
        if p[pi] != '%' {
            if ti < t.len() && t[ti] == p[pi] {
                assert(ps.drop_first() =~= p@.skip(pi + 1));
                assert(ts.drop_first() =~= t@.skip(ti + 1));
                pi += 1;
                ti += 1;
            } else {
                return None;
            }
        } else if pi + 1 >= p.len() {
            return None;
        } else {
            let k: char = p[pi + 1];
            assert(ps[1] == k);
            match widths_of(k) {
                None => {
                    return None;
                },
                Some((least, most)) => {
                    let rest = slice_subrange(t, ti, t.len());
                    assert(rest@ =~= ts);
                    let (n, value) = read_digits(rest, most);
                    if n < least {
                        return None;
                    }
                    match place(fields, k, value) {
                        None => {
                            return None;
                        },
                        Some(next) => {
                            assert(ps.skip(2) =~= p@.skip(pi + 2));
                            assert(ts.skip(n as int) =~= t@.skip(ti + n));
                            fields = next;
                            pi += 2;
                            ti += n;
                        },
                    }
                },
            }
        }
    }
    if ti < t.len() {
        None
    } else {
        Some(fields)
    }
}

/// The canonical date that a slice of characters writes under a pattern.
pub(crate) fn date_of_chars(t: &[char], p: &[char]) -> (r: Option<String>)
    ensures
        match r {
            Some(s) => normalized_date(t@, p@) == Some(s@),
            None => normalized_date(t@, p@) is None,
        },
{
    match scan_chars(t, p) {
        None => None,
        Some(f) => match (f.year, f.month, f.day) {
            (Some(year), Some(month), Some(day)) => {
                if 1 <= month && month <= 12 && 1 <= day && day <= month_length(year, month) {
                    let mut out = String::new();
                    out.push(digit_to_char((year / 1000) as u64));
                    out.push(digit_to_char((year / 100) as u64));
                    out.push(digit_to_char((year / 10) as u64));
                    out.push(digit_to_char(year as u64));
                    out.push('-');
                    out.push(digit_to_char((month / 10) as u64));
                    out.push(digit_to_char(month as u64));
                    out.push('-');
                    out.push(digit_to_char((day / 10) as u64));
                    out.push(digit_to_char(day as u64));
                    assert(out@ =~= canonical_date(year as nat, month as nat, day as nat));
                    Some(out)
                } else {
                    None
                }
            },
            _ => None,
        },
    }
}

/// Reads `text` as a date under `format` and returns it as `YYYY-MM-DD`.
/// Text that does not follow the pattern, or that names no day of the
/// calendar, is refused with the text and the pattern as given.
pub fn parse_date(text: &str, format: &str) -> (r: Result<String, QifParsingError>)
    ensures
        match normalized_date(text@, format@) {
            Some(date) => r is Ok && r->Ok_0@ == date,
            None => r is Err && r->Err_0@ == ErrorView::InvalidDate(text@, format@),
        },
{
    let t = to_chars(text);
    let p = to_chars(format);
    match date_of_chars(t.as_slice(), p.as_slice()) {
        Some(date) => Ok(date),
        None => Err(QifParsingError::InvalidDate(text.to_owned(), format.to_owned())),
    }
}

} // verus!
