//! Whole files: lines are classified, fields are gathered into records, and
//! each `^` line ends one.
//!
//! A record in which a date or an amount cannot be read, or that ends without
//! its date or its amount, is not among the items of the file: its first
//! error is kept instead. `parse_lenient` hands back the items together with
//! those errors, `parse_strict` gives up at the first of them, and `parse`
//! and `parse_with_format` hand back the items alone. What follows the last
//! `^` line belongs to no record and is dropped without an error.

use crate::errors::{ErrorView, QifParsingError};
use crate::line::{classified_lines, classify_lines, line_views, LineView, QifLine};
use crate::record::{
    error_views, item_views, ItemDraft, ItemView, QifItem, QifItemBuilder, RecordKind,
};
use vstd::prelude::*;

verus! {

/// A file: the name of its type and its records, in the order of the file.
#[derive(Debug, Clone, PartialEq, Eq)]
pub struct Qif {
    /// What the `!Type` line names; empty where the file has none.
    pub file_type: String,
    pub items: Vec<QifItem>,
}

pub struct QifView {
    pub file_type: Seq<char>,
    pub items: Seq<ItemView>,
}

impl View for Qif {
    type V = QifView;

    open spec fn view(&self) -> QifView {
        QifView { file_type: self.file_type@, items: item_views(self.items@) }
    }
}

/// A file together with the first error of each record that was left out.
#[derive(Debug, Clone, PartialEq, Eq)]
pub struct QifReport {
    pub file: Qif,
    pub errors: Vec<QifParsingError>,
}

/// Where the reading of a file stands after some of its lines.
pub struct ParseState {
    pub kind: RecordKind,
    pub file_type: Seq<char>,
    /// The records ended so far.
    pub items: Seq<ItemView>,
    /// The first error of each record that was ended and left out.
    pub errors: Seq<ErrorView>,
    /// The record being gathered, or the first error met in it.
    pub draft: Result<ItemDraft, ErrorView>,
}

impl ParseState {
    pub open spec fn start(kind: RecordKind) -> ParseState {
        ParseState {
            kind,
            file_type: Seq::empty(),
            items: Seq::empty(),
            errors: Seq::empty(),
            draft: Ok(ItemDraft::empty(kind)),
        }
    }

    /// The state once the record being gathered has been ended.
    pub open spec fn ended(self) -> ParseState {
        let outcome = match self.draft {
            Ok(draft) => draft.finished(),
            Err(e) => Err(e),
        };
        match outcome {
            Ok(item) => ParseState {
                items: self.items.push(item),
                draft: Ok(ItemDraft::empty(self.kind)),
                ..self
            },
            Err(e) => ParseState {
                errors: self.errors.push(e),
                draft: Ok(ItemDraft::empty(self.kind)),
                ..self
            },
        }
    }

    /// The state after one more line. A header names the type of the file, a
    /// terminator ends the record, a blank changes nothing, and a field goes
    /// to the record being gathered unless an error was met in it before.
    pub open spec fn after(self, line: LineView, format: Seq<char>) -> ParseState {
        match line {
            LineView::Header(name) => ParseState { file_type: name, ..self },
            LineView::Terminator => self.ended(),
            LineView::Blank => self,
            LineView::Field(tag, payload) => match self.draft {
                Ok(draft) => ParseState { draft: draft.applied(tag, payload, format), ..self },
                Err(_) => self,
            },
        }
    }

    pub open spec fn file(self) -> QifView {
        QifView { file_type: self.file_type, items: self.items }
    }
}

/// The state after all of `lines`, read in order from the start.
pub open spec fn parsed(lines: Seq<LineView>, format: Seq<char>, kind: RecordKind) -> ParseState
    decreases lines.len(),
{
    if lines.len() == 0 {
        ParseState::start(kind)
    } else {
        parsed(lines.drop_last(), format, kind).after(lines.last(), format)
    }
}

/// The state after the whole of a file.
pub open spec fn parsed_file(content: Seq<char>, format: Seq<char>, kind: RecordKind) -> ParseState {
    parsed(classified_lines(content), format, kind)
}

/// How many of the lines end a record.
pub open spec fn terminators(lines: Seq<LineView>) -> nat
    decreases lines.len(),
{
    if lines.len() == 0 {
        0
    } else {
        terminators(lines.drop_last()) + if lines.last() is Terminator {
            1nat
        } else {
            0nat
        }
    }
}

/// Every `^` line gives one item or one error, and no other line gives
/// either: lines after the last `^` add no record.
pub proof fn lemma_one_outcome_per_terminator(
    lines: Seq<LineView>,
    format: Seq<char>,
    kind: RecordKind,
)
    ensures
        parsed(lines, format, kind).items.len() + parsed(lines, format, kind).errors.len()
            == terminators(lines),
        parsed(lines, format, kind).kind == kind,
    decreases lines.len(),
{
    if lines.len() > 0 {
        lemma_one_outcome_per_terminator(lines.drop_last(), format, kind);
    }
}

/// Reading more lines keeps the errors met so far, in their places.
pub proof fn lemma_errors_stay(lines: Seq<LineView>, k: int, format: Seq<char>, kind: RecordKind)
    requires
        0 <= k <= lines.len(),
    ensures
        parsed(lines.take(k), format, kind).errors.is_prefix_of(
            parsed(lines, format, kind).errors,
        ),
    decreases lines.len() - k,
{
    if k == lines.len() {
        assert(lines.take(k) =~= lines);
    } else {
        lemma_errors_stay(lines.drop_last(), k, format, kind);
        assert(lines.drop_last().take(k) =~= lines.take(k));
    }
}

/// Gathers the records of a file, one line at a time.
#[derive(Debug, Clone)]
pub struct RecordAssembler {
    kind: RecordKind,
    file_type: String,
    items: Vec<QifItem>,
    errors: Vec<QifParsingError>,
    builder: QifItemBuilder,
    failed: Option<QifParsingError>,
}

impl View for RecordAssembler {
    type V = ParseState;

    closed spec fn view(&self) -> ParseState {
        ParseState {
            kind: self.kind,
            file_type: self.file_type@,
            items: item_views(self.items@),
            errors: error_views(self.errors@),
            draft: match self.failed {
                Some(e) => Err(e@),
                None => Ok(self.builder@),
            },
        }
    }
}

impl RecordAssembler {
    /// An assembler that has seen no line yet.
    pub fn new(kind: RecordKind) -> (out: RecordAssembler)
        ensures
            out@ == ParseState::start(kind),
    {
        let out = RecordAssembler {
            kind,
            file_type: String::new(),
            items: Vec::new(),
            errors: Vec::new(),
            builder: QifItemBuilder::new(kind),
            failed: None,
        };
        assert(item_views(out.items@) =~= Seq::<ItemView>::empty());
        assert(error_views(out.errors@) =~= Seq::<ErrorView>::empty());
        out
    }

    /// Takes in the next line of the file. Dates are read under
    /// `date_format`.
    pub fn line(&mut self, line: &QifLine, date_format: &str)
        ensures
            final(self)@ == old(self)@.after(line@, date_format@),
    {
        match line {
            QifLine::Header(name) => {
                self.file_type = name.clone();
            },
            QifLine::Blank => {},
            QifLine::Field(tag, payload) => {
                if self.failed.is_none() {
                    match self.builder.field(*tag, payload.as_str(), date_format) {
                        Ok(()) => {},
                        Err(e) => {
                            self.failed = Some(e);
                        },
                    }
                }
            },
            QifLine::Terminator => {
                let outcome = match &self.failed {
                    Some(e) => Err(e.duplicate()),
                    None => self.builder.build(),
                };
                match outcome {
                    Ok(item) => {
                        self.items.push(item);
                        assert(item_views(self.items@) =~= item_views(old(self).items@).push(
                            item@,
                        ));
                    },
                    Err(e) => {
                        self.errors.push(e);
                        assert(error_views(self.errors@) =~= error_views(old(self).errors@).push(
                            e@,
                        ));
                    },
                }
                self.builder = QifItemBuilder::new(self.kind);
                self.failed = None;
            },
        }
    }

    /// How many records have been left out so far.
    pub fn error_count(&self) -> (n: usize)
        ensures
            n == self@.errors.len(),
    {
        self.errors.len()
    }

    /// The file as read so far, with the errors; the record being gathered
    /// is dropped.
    pub fn finish(self) -> (report: QifReport)
        ensures
            report.file@ == self@.file(),
            error_views(report.errors@) == self@.errors,
    {
        QifReport { file: Qif { file_type: self.file_type, items: self.items }, errors: self.errors }
    }
}

/// Reads a file as records of the given kind and leaves out every record
/// that cannot be read, keeping the first error of each.
pub fn parse_lenient(content: &str, date_format: &str, kind: RecordKind) -> (report: QifReport)
    ensures
        report.file@ == parsed_file(content@, date_format@, kind).file(),
        error_views(report.errors@) == parsed_file(content@, date_format@, kind).errors,
{
    let lines = classify_lines(content);
    let mut assembler = RecordAssembler::new(kind);
    let mut i: usize = 0;
    assert(line_views(lines@).take(0) =~= Seq::<LineView>::empty());
    while i < lines.len()
        invariant
            i <= lines.len(),
            assembler@ == parsed(line_views(lines@).take(i as int), date_format@, kind),
        decreases lines.len() - i,
    {
        assembler.line(&lines[i], date_format);
        assert(line_views(lines@).take(i + 1).drop_last() =~= line_views(lines@).take(i as int));
        i += 1;
    }
    assert(line_views(lines@).take(i as int) =~= line_views(lines@));
    assembler.finish()
}

/// Reads a file as records of the given kind and gives up at the first
/// record that cannot be read, with the first error of that record.
pub fn parse_strict(content: &str, date_format: &str, kind: RecordKind) -> (r: Result<
    Qif,
    QifParsingError,
>)
    ensures
        match r {
            Ok(file) => parsed_file(content@, date_format@, kind).errors.len() == 0 && file@
                == parsed_file(content@, date_format@, kind).file(),
            Err(e) => parsed_file(content@, date_format@, kind).errors.len() > 0 && e@
                == parsed_file(content@, date_format@, kind).errors[0],
        },
{
    let lines = classify_lines(content);
    let mut assembler = RecordAssembler::new(kind);
    let mut i: usize = 0;
    assert(line_views(lines@).take(0) =~= Seq::<LineView>::empty());
    while i < lines.len() && assembler.error_count() == 0
        invariant
            i <= lines.len(),
            assembler@ == parsed(line_views(lines@).take(i as int), date_format@, kind),
        decreases lines.len() - i,
    {
        assembler.line(&lines[i], date_format);
        assert(line_views(lines@).take(i + 1).drop_last() =~= line_views(lines@).take(i as int));
        i += 1;
    }
    proof {
        lemma_errors_stay(line_views(lines@), i as int, date_format@, kind);
        if i == lines.len() {
            assert(line_views(lines@).take(i as int) =~= line_views(lines@));
        }
    }
    let ghost seen = assembler@.errors;
    let report = assembler.finish();
    if report.errors.len() > 0 {
        let first = report.errors[0].duplicate();
        proof {
            let all = parsed_file(content@, date_format@, kind).errors;
            assert(seen[0] == error_views(report.errors@)[0]);
            assert(seen[0] == all.subrange(0, seen.len() as int)[0]);
        }
        Err(first)
    } else {
        assert(error_views(report.errors@).len() == report.errors@.len());
        Ok(report.file)
    }
}

/// Reads a file of transactions, with dates under `date_format`. A record
/// that cannot be read is left out; `parse_lenient` also tells why.
pub fn parse_with_format(qif_content: &str, date_format: &str) -> (qif: Qif)
    ensures
        qif@ == parsed_file(qif_content@, date_format@, RecordKind::Transaction).file(),
{
    parse_lenient(qif_content, date_format, RecordKind::Transaction).file
}

/// Reads a file of transactions whose dates are written day, month and
/// four-digit year with `/` between them.
pub fn parse(qif_content: &str) -> (qif: Qif)
    ensures
        qif@ == parsed_file(qif_content@, "%d/%m/%Y"@, RecordKind::Transaction).file(),
{
    parse_with_format(qif_content, "%d/%m/%Y")
}

} // verus!
