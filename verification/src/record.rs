//! The two kinds of record, and a builder for either.

use crate::errors::{ErrorView, QifParsingError};
use crate::investment::{InvestmentDraft, InvestmentView, QifInvestment, QifInvestmentBuilder};
use crate::transaction::{QifTransaction, QifTransactionBuilder, TransactionDraft, TransactionView};
use vstd::prelude::*;

verus! {

/// Which records a file is read as. The header of a file does not decide it:
/// the caller does.
#[derive(Debug, Clone, Copy, PartialEq, Eq)]
pub enum RecordKind {
    Transaction,
    Investment,
}

/// One record of a file.
#[derive(Debug, Clone, PartialEq, Eq)]
pub enum QifItem {
    Transaction(QifTransaction),
    Investment(QifInvestment),
}

pub enum ItemView {
    Transaction(TransactionView),
    Investment(InvestmentView),
}

impl View for QifItem {
    type V = ItemView;

    open spec fn view(&self) -> ItemView {
        match self {
            QifItem::Transaction(t) => ItemView::Transaction(t@),
            QifItem::Investment(i) => ItemView::Investment(i@),
        }
    }
}

pub open spec fn item_views(items: Seq<QifItem>) -> Seq<ItemView> {
    items.map_values(|i: QifItem| i@)
}

pub open spec fn error_views(errors: Seq<QifParsingError>) -> Seq<ErrorView> {
    errors.map_values(|e: QifParsingError| e@)
}

impl QifItem {
    /// A record that holds the same as this one.
    pub fn duplicate(&self) -> (out: QifItem)
        ensures
            out@ == self@,
    {
        match self {
            QifItem::Transaction(t) => QifItem::Transaction(t.duplicate()),
            QifItem::Investment(i) => QifItem::Investment(i.duplicate()),
        }
    }

    /// The record on one line, for people to read.
    pub fn to_text(&self) -> (out: String)
        ensures
            out@ == match self@ {
                ItemView::Transaction(t) => t.line(),
                ItemView::Investment(i) => i.line(),
            },
    {
        match self {
            QifItem::Transaction(t) => t.to_text(),
            QifItem::Investment(i) => i.to_text(),
        }
    }
}

/// What a record builder has been given so far.
pub enum ItemDraft {
    Transaction(TransactionDraft),
    Investment(InvestmentDraft),
}

impl ItemDraft {
    pub open spec fn empty(kind: RecordKind) -> ItemDraft {
        match kind {
            RecordKind::Transaction => ItemDraft::Transaction(TransactionDraft::empty()),
            RecordKind::Investment => ItemDraft::Investment(InvestmentDraft::empty()),
        }
    }

    /// The draft after one tagged line, by the rules of its kind.
    pub open spec fn applied(self, tag: char, payload: Seq<char>, format: Seq<char>) -> Result<
        ItemDraft,
        ErrorView,
    > {
        match self {
            ItemDraft::Transaction(d) => match d.applied(tag, payload, format) {
                Ok(next) => Ok(ItemDraft::Transaction(next)),
                Err(e) => Err(e),
            },
            ItemDraft::Investment(d) => match d.applied(tag, payload, format) {
                Ok(next) => Ok(ItemDraft::Investment(next)),
                Err(e) => Err(e),
            },
        }
    }

    /// The record that the draft makes, by the rules of its kind.
    pub open spec fn finished(self) -> Result<ItemView, ErrorView> {
        match self {
            ItemDraft::Transaction(d) => match d.finished() {
                Ok(t) => Ok(ItemView::Transaction(t)),
                Err(e) => Err(e),
            },
            ItemDraft::Investment(d) => match d.finished() {
                Ok(i) => Ok(ItemView::Investment(i)),
                Err(e) => Err(e),
            },
        }
    }
}

/// A builder for a record of either kind.
#[derive(Debug, Clone)]
pub enum QifItemBuilder {
    Transaction(QifTransactionBuilder),
    Investment(QifInvestmentBuilder),
}

impl View for QifItemBuilder {
    type V = ItemDraft;

    open spec fn view(&self) -> ItemDraft {
        match self {
            QifItemBuilder::Transaction(b) => ItemDraft::Transaction(b@),
            QifItemBuilder::Investment(b) => ItemDraft::Investment(b@),
        }
    }
}

impl QifItemBuilder {
    /// A builder of the given kind that has been given nothing yet.
    pub fn new(kind: RecordKind) -> (out: QifItemBuilder)
        ensures
            out@ == ItemDraft::empty(kind),
    {
        match kind {
            RecordKind::Transaction => QifItemBuilder::Transaction(
                QifTransactionBuilder::default(),
            ),
            RecordKind::Investment => QifItemBuilder::Investment(QifInvestmentBuilder::default()),
        }
    }

    /// Takes in one tagged line of a record. Where the line cannot be read
    /// the builder stays as it was.
    pub fn field(&mut self, tag: char, payload: &str, date_format: &str) -> (r: Result<
        (),
        QifParsingError,
    >)
        ensures
            match old(self)@.applied(tag, payload@, date_format@) {
                Ok(draft) => r is Ok && final(self)@ == draft,
                Err(e) => r is Err && r->Err_0@ == e && final(self)@ == old(self)@,
            },
    {
        match self {
            QifItemBuilder::Transaction(b) => b.field(tag, payload, date_format),
            QifItemBuilder::Investment(b) => b.field(tag, payload, date_format),
        }
    }

    /// The record gathered so far. The builder is left as it is.
    pub fn build(&self) -> (r: Result<QifItem, QifParsingError>)
        ensures
            match self@.finished() {
                Ok(item) => r is Ok && r->Ok_0@ == item,
                Err(e) => r is Err && r->Err_0@ == e,
            },
    {
        match self {
            QifItemBuilder::Transaction(b) => match b.build() {
                Ok(t) => Ok(QifItem::Transaction(t)),
                Err(e) => Err(e),
            },
            QifItemBuilder::Investment(b) => match b.build() {
                Ok(i) => Ok(QifItem::Investment(i)),
                Err(e) => Err(e),
            },
        }
    }
}

} // verus!
