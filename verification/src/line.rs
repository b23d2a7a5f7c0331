//! Lines of a file and what each of them is: the header, the end of a
//! record, a blank, or a tagged field.

use crate::text::{to_chars, to_text};
use vstd::prelude::*;
use vstd::slice::slice_subrange;

verus! {

/// One line of a file, classified.
#[derive(Debug, Clone, PartialEq, Eq)]
pub enum QifLine {
    /// The `!Type` line, with the name of the file's type.
    Header(String),
    /// The `^` line that ends a record.
    Terminator,
    /// A line without characters.
    Blank,
    /// Any other line: its first character and what follows it.
    Field(char, String),
}

pub enum LineView {
    Header(Seq<char>),
    Terminator,
    Blank,
    Field(char, Seq<char>),
}

impl View for QifLine {
    type V = LineView;

    open spec fn view(&self) -> LineView {
        match self {
            QifLine::Header(name) => LineView::Header(name@),
            QifLine::Terminator => LineView::Terminator,
            QifLine::Blank => LineView::Blank,
            QifLine::Field(tag, payload) => LineView::Field(*tag, payload@),
        }
    }
}

pub open spec fn line_views(lines: Seq<QifLine>) -> Seq<LineView> {
    lines.map_values(|l: QifLine| l@)
}

/// A line feed or a carriage return.
pub open spec fn is_break(c: char) -> bool {
    c == '\n' || c == '\r'
}

/// Where the first line of `s` ends: at its first break, or at its end.
pub open spec fn line_end(s: Seq<char>) -> int
    decreases s.len(),
{
    if s.len() == 0 || is_break(s.first()) {
        0
    } else {
        1 + line_end(s.drop_first())
    }
}

/// How many characters the break at `k` takes: two for a carriage return
/// followed by a line feed, one otherwise.
pub open spec fn break_width(s: Seq<char>, k: int) -> int {
    if s[k] == '\r' && k + 1 < s.len() && s[k + 1] == '\n' {
        2
    } else {
        1
    }
}

/// The lines of `s`. A line ends at a line feed, at a carriage return, or at
/// the two together; what follows the last break is a line unless it is empty.
pub open spec fn split_lines(s: Seq<char>) -> Seq<Seq<char>>
    decreases s.len(),
{
    if s.len() == 0 {
        Seq::empty()
    } else {
        let k = line_end(s);
        if 0 <= k < s.len() {
            seq![s.take(k)] + split_lines(s.skip(k + break_width(s, k)))
        } else {
            seq![s]
        }
    }
}

/// Whether the line starts with `!Type`.
pub open spec fn is_header(line: Seq<char>) -> bool {
    &&& line.len() >= 5
    &&& line[0] == '!'
    &&& line[1] == 'T'
    &&& line[2] == 'y'
    &&& line[3] == 'p'
    &&& line[4] == 'e'
}

/// What a header line names: the text after `!Type` and the one character
/// that separates the two.
pub open spec fn header_name(line: Seq<char>) -> Seq<char> {
    if line.len() > 6 {
        line.skip(6)
    } else {
        Seq::empty()
    }
}

pub open spec fn classify(line: Seq<char>) -> LineView {
    if line.len() == 0 {
        LineView::Blank
    } else if is_header(line) {
        LineView::Header(header_name(line))
    } else if line.len() == 1 && line[0] == '^' {
        LineView::Terminator
    } else {
        LineView::Field(line[0], line.skip(1))
    }
}

/// The classified lines of a whole file, in order.
pub open spec fn classified_lines(content: Seq<char>) -> Seq<LineView> {
    split_lines(content).map_values(|l: Seq<char>| classify(l))
}

pub(crate) proof fn lemma_line_end_bounds(s: Seq<char>)
    ensures
        0 <= line_end(s) <= s.len(),
        line_end(s) < s.len() ==> is_break(s[line_end(s)]),
        forall|i: int| 0 <= i < line_end(s) ==> !is_break(#[trigger] s[i]),
    decreases s.len(),
{
    if s.len() == 0 || is_break(s.first()) {
    } else {
        lemma_line_end_bounds(s.drop_first());
        assert forall|i: int| 0 <= i < line_end(s) implies !is_break(#[trigger] s[i]) by {
            if i > 0 {
                assert(s[i] == s.drop_first()[i - 1]);
            }
        }
    }
}

fn find_line_end(s: &[char]) -> (k: usize)
    ensures
        k == line_end(s@),
        k <= s.len(),
{
    let mut k: usize = 0;
    assert(s@.skip(0) =~= s@);
    while k < s.len() && s[k] != '\n' && s[k] != '\r'
        invariant
            k <= s.len(),
            line_end(s@) == k + line_end(s@.skip(k as int)),
        decreases s.len() - k,
    {
        assert(s@.skip(k as int).drop_first() =~= s@.skip(k + 1));
        k += 1;
    }
    k
}

/// Classifies the characters of one line.
pub(crate) fn classify_chars(line: &[char]) -> (r: QifLine)
    ensures
        r@ == classify(line@),
{
    let n: usize = line.len();
    if n == 0 {
        QifLine::Blank
    } else if n >= 5 && line[0] == '!' && line[1] == 'T' && line[2] == 'y' && line[3] == 'p'
        && line[4] == 'e' {
        if n > 6 {
            let name = to_text(slice_subrange(line, 6, n));
            assert(name@ =~= header_name(line@));
            QifLine::Header(name)
        } else {
            QifLine::Header(String::new())
        }
    } else if n == 1 && line[0] == '^' {
        QifLine::Terminator
    } else {
        let payload = to_text(slice_subrange(line, 1, n));
        assert(payload@ =~= line@.skip(1));
        QifLine::Field(line[0], payload)
    }
}

/// Classifies one line, given without its line break.
pub fn classify_line(line: &str) -> (r: QifLine)
    ensures
        r@ == classify(line@),
{
    let chars = to_chars(line);
    classify_chars(chars.as_slice())
}

/// Splits a file into lines and classifies each of them. The text is only
/// read, so the same call can be made again with the same result.
pub fn classify_lines(content: &str) -> (out: Vec<QifLine>)
    ensures
        line_views(out@) == classified_lines(content@),
{
    let chars = to_chars(content);
    let s = chars.as_slice();
    let n: usize = s.len();
    let mut out: Vec<QifLine> = Vec::new();
    let mut pos: usize = 0;
    assert(s@.skip(0) =~= s@);
    assert(line_views(out@) =~= Seq::<LineView>::empty());
    while pos < n
        invariant
            pos <= n == s.len(),
            s@ == content@,
            classified_lines(s@) == line_views(out@) + classified_lines(s@.skip(pos as int)),
        decreases n - pos,
    {
        let rest = slice_subrange(s, pos, n);
        assert(rest@ =~= s@.skip(pos as int));
        let k: usize = find_line_end(rest);
        let line = slice_subrange(rest, 0, k);
        assert(line@ =~= rest@.take(k as int));
        let item = classify_chars(line);
        let ghost before = line_views(out@);
        let ghost tail: Seq<Seq<char>>;
        if k < rest.len() {
            let width: usize = if rest[k] == '\r' && k + 1 < rest.len() && rest[k + 1] == '\n' {
                2
            } else {
                1
            };
            proof {
                tail = split_lines(rest@.skip(k + width));
                assert(rest@.skip(k + width) =~= s@.skip(pos + k + width));
                assert(split_lines(rest@) == seq![line@] + tail);
            }
            pos = pos + k + width;
        } else {
            proof {
                tail = Seq::empty();
                lemma_line_end_bounds(rest@);
                assert(line@ =~= rest@);
                assert(split_lines(rest@) =~= seq![line@] + tail);
                assert(split_lines(s@.skip(n as int)) =~= Seq::<Seq<char>>::empty());
            }
            pos = n;
        }
        out.push(item);
        proof {
            let f = |l: Seq<char>| classify(l);
            assert((seq![line@] + tail).map_values(f) =~= seq![classify(line@)] + tail.map_values(
                f,
            ));
            assert(line_views(out@) =~= before + seq![classify(line@)]);
            assert(before + (seq![classify(line@)] + tail.map_values(f)) =~= (before
                + seq![classify(line@)]) + tail.map_values(f));
        }
    }
    assert(classified_lines(s@.skip(n as int)) =~= Seq::<LineView>::empty());
    assert(line_views(out@) + Seq::<LineView>::empty() =~= line_views(out@));
    out
}

} // verus!
