//! Bank and cash transactions, and the builder that gathers one from the
//! tagged lines of a record.

use crate::amount::{parse_amount, scaled_amount};
use crate::date::{normalized_date, parse_date};
use crate::errors::{ErrorView, QifParsingError};
use crate::split::{
    copy_splits, copy_texts, split_views, texts, QifSplit, QifSplitBuilder, SplitDraft, SplitView,
};
use crate::text::{decimal_text, push_decimal, push_text};
use vstd::prelude::*;

verus! {

/// A transaction: a date and an amount, and whatever else the record gave.
#[derive(Debug, Clone, PartialEq, Eq, Default)]
pub struct QifTransaction {
    /// As `YYYY-MM-DD` where it was read from a `D` line.
    pub date: String,
    /// In hundredths.
    pub amount: i64,
    pub memo: String,
    pub payee: String,
    pub category: String,
    pub cleared_status: String,
    pub address: Vec<String>,
    pub splits: Vec<QifSplit>,
    pub number_of_the_check: String,
}

pub struct TransactionView {
    pub date: Seq<char>,
    pub amount: i64,
    pub memo: Seq<char>,
    pub payee: Seq<char>,
    pub category: Seq<char>,
    pub cleared_status: Seq<char>,
    pub address: Seq<Seq<char>>,
    pub splits: Seq<SplitView>,
    pub number_of_the_check: Seq<char>,
}

impl View for QifTransaction {
    type V = TransactionView;

    open spec fn view(&self) -> TransactionView {
        TransactionView {
            date: self.date@,
            amount: self.amount,
            memo: self.memo@,
            payee: self.payee@,
            category: self.category@,
            cleared_status: self.cleared_status@,
            address: texts(self.address@),
            splits: split_views(self.splits@),
            number_of_the_check: self.number_of_the_check@,
        }
    }
}

impl TransactionView {
    /// Date, amount, memo and payee on one line, with a blank between each
    /// two.
    pub open spec fn line(self) -> Seq<char> {
        self.date + seq![' '] + decimal_text(self.amount as int) + seq![' '] + self.memo
            + seq![' '] + self.payee
    }
}

impl QifTransaction {
    /// The transaction on one line, for people to read.
    pub fn to_text(&self) -> (out: String)
        ensures
            out@ == self@.line(),
    {
        let mut out = String::new();
        push_text(&mut out, self.date.as_str());
        out.push(' ');
        push_decimal(&mut out, self.amount);
        out.push(' ');
        push_text(&mut out, self.memo.as_str());
        out.push(' ');
        push_text(&mut out, self.payee.as_str());
        assert(out@ =~= self@.line());
        out
    }

    /// A transaction that holds the same as this one.
    pub fn duplicate(&self) -> (out: QifTransaction)
        ensures
            out@ == self@,
    {
        QifTransaction {
            date: self.date.clone(),
            amount: self.amount,
            memo: self.memo.clone(),
            payee: self.payee.clone(),
            category: self.category.clone(),
            cleared_status: self.cleared_status.clone(),
            address: copy_texts(&self.address),
            splits: copy_splits(&self.splits),
            number_of_the_check: self.number_of_the_check.clone(),
        }
    }
}

/// What a transaction builder has been given so far. `split` is the split
/// that is being gathered and has not been added yet.
pub struct TransactionDraft {
    pub date: Option<Seq<char>>,
    pub amount: Option<i64>,
    pub memo: Seq<char>,
    pub payee: Seq<char>,
    pub category: Seq<char>,
    pub cleared_status: Seq<char>,
    pub address: Seq<Seq<char>>,
    pub splits: Seq<SplitView>,
    pub number_of_the_check: Seq<char>,
    pub split: SplitDraft,
}

impl TransactionDraft {
    pub open spec fn empty() -> TransactionDraft {
        TransactionDraft {
            date: None,
            amount: None,
            memo: Seq::empty(),
            payee: Seq::empty(),
            category: Seq::empty(),
            cleared_status: Seq::empty(),
            address: Seq::empty(),
            splits: Seq::empty(),
            number_of_the_check: Seq::empty(),
            split: SplitDraft::empty(),
        }
    }

    /// The draft after one tagged line. `D` sets the date, `T` and `U` the
    /// amount, `P` the payee, `M` the memo, `L` the category, `C` the cleared
    /// status, `N` the number of the check; `A` adds a line of the address.
    /// `S` and `E` set the category and the memo of the split being gathered,
    /// and `$` gives it its amount and adds it to the splits. Any other tag
    /// leaves the draft as it was. A date or an amount that cannot be read is
    /// an error.
    pub open spec fn applied(self, tag: char, payload: Seq<char>, format: Seq<char>) -> Result<
        TransactionDraft,
        ErrorView,
    > {
        if tag == 'D' {
            match normalized_date(payload, format) {
                Some(date) => Ok(TransactionDraft { date: Some(date), ..self }),
                None => Err(ErrorView::InvalidDate(payload, format)),
            }
        } else if tag == 'T' || tag == 'U' {
            match scaled_amount(payload) {
                Some(amount) => Ok(TransactionDraft { amount: Some(amount), ..self }),
                None => Err(ErrorView::InvalidAmount(payload)),
            }
        } else if tag == 'P' {
            Ok(TransactionDraft { payee: payload, ..self })
        } else if tag == 'M' {
            Ok(TransactionDraft { memo: payload, ..self })
        } else if tag == 'L' {
            Ok(TransactionDraft { category: payload, ..self })
        } else if tag == 'C' {
            Ok(TransactionDraft { cleared_status: payload, ..self })
        } else if tag == 'N' {
            Ok(TransactionDraft { number_of_the_check: payload, ..self })
        } else if tag == 'A' {
            Ok(TransactionDraft { address: self.address.push(payload), ..self })
        } else if tag == 'S' {
            Ok(TransactionDraft { split: SplitDraft { category: payload, ..self.split }, ..self })
        } else if tag == 'E' {
            Ok(TransactionDraft { split: SplitDraft { memo: payload, ..self.split }, ..self })
        } else if tag == '$' {
            match scaled_amount(payload) {
                Some(amount) => Ok(
                    TransactionDraft {
                        splits: self.splits.push(
                            SplitView {
                                category: self.split.category,
                                memo: self.split.memo,
                                amount,
                            },
                        ),
                        split: SplitDraft::empty(),
                        ..self
                    },
                ),
                None => Err(ErrorView::InvalidAmount(payload)),
            }
        } else {
            Ok(self)
        }
    }

    /// The transaction that the draft makes. The date and the amount must
    /// have been given; the error names the first of the two that is missing.
    /// A split that is still being gathered is left out.
    pub open spec fn finished(self) -> Result<TransactionView, ErrorView> {
        if self.date is None {
            Err(ErrorView::MissingRequiredField("date"@))
        } else if self.amount is None {
            Err(ErrorView::MissingRequiredField("amount"@))
        } else {
            Ok(
                TransactionView {
                    date: self.date->0,
                    amount: self.amount->0,
                    memo: self.memo,
                    payee: self.payee,
                    category: self.category,
                    cleared_status: self.cleared_status,
                    address: self.address,
                    splits: self.splits,
                    number_of_the_check: self.number_of_the_check,
                },
            )
        }
    }
}

/// An `S` line, an `E` line and a `$` line, in that order, add exactly one
/// split, which holds the category, the memo and the amount of the three
/// lines. The split being gathered is empty again, and nothing else changes.
pub proof fn lemma_split_lines_add_one_split(
    draft: TransactionDraft,
    category: Seq<char>,
    memo: Seq<char>,
    amount: Seq<char>,
    format: Seq<char>,
)
    requires
        scaled_amount(amount) is Some,
    ensures
        draft.applied('S', category, format) is Ok,
        draft.applied('S', category, format)->Ok_0.applied('E', memo, format) is Ok,
        draft.applied('S', category, format)->Ok_0.applied('E', memo, format)->Ok_0.applied(
            '$',
            amount,
            format,
        ) == Ok::<TransactionDraft, ErrorView>(
            TransactionDraft {
                splits: draft.splits.push(
                    SplitView { category, memo, amount: scaled_amount(amount)->0 },
                ),
                split: SplitDraft::empty(),
                ..draft
            },
        ),
{
}

/// Gathers the fields of one transaction, by name or from tagged lines.
#[derive(Debug, Clone)]
pub struct QifTransactionBuilder {
    date: Option<String>,
    amount: Option<i64>,
    memo: String,
    payee: String,
    category: String,
    cleared_status: String,
    address: Vec<String>,
    splits: Vec<QifSplit>,
    number_of_the_check: String,
    split: QifSplitBuilder,
}

impl View for QifTransactionBuilder {
    type V = TransactionDraft;

    closed spec fn view(&self) -> TransactionDraft {
        TransactionDraft {
            date: match self.date {
                Some(date) => Some(date@),
                None => None,
            },
            amount: self.amount,
            memo: self.memo@,
            payee: self.payee@,
            category: self.category@,
            cleared_status: self.cleared_status@,
            address: texts(self.address@),
            splits: split_views(self.splits@),
            number_of_the_check: self.number_of_the_check@,
            split: self.split@,
        }
    }
}

impl Default for QifTransactionBuilder {
    fn default() -> (out: QifTransactionBuilder)
        ensures
            out@ == TransactionDraft::empty(),
    {
        let out = QifTransactionBuilder {
            date: None,
            amount: None,
            memo: String::new(),
            payee: String::new(),
            category: String::new(),
            cleared_status: String::new(),
            address: Vec::new(),
            splits: Vec::new(),
            number_of_the_check: String::new(),
            split: QifSplitBuilder::default(),
        };
        assert(texts(out.address@) =~= Seq::<Seq<char>>::empty());
        assert(split_views(out.splits@) =~= Seq::<SplitView>::empty());
        out
    }
}

impl QifTransactionBuilder {
    /// Sets the date to the text as given, without reading it.
    pub fn date(&mut self, value: String) -> (ret: &mut Self)
        ensures
            ret@ == (TransactionDraft { date: Some(value@), ..old(self)@ }),
            *final(self) == *final(ret),
    {
        self.date = Some(value);
        self
    }

    pub fn amount(&mut self, value: i64) -> (ret: &mut Self)
        ensures
            ret@ == (TransactionDraft { amount: Some(value), ..old(self)@ }),
            *final(self) == *final(ret),
    {
        self.amount = Some(value);
        self
    }

    pub fn memo(&mut self, value: &str) -> (ret: &mut Self)
        ensures
            ret@ == (TransactionDraft { memo: value@, ..old(self)@ }),
            *final(self) == *final(ret),
    {
        self.memo = value.to_owned();
        self
    }

    pub fn payee(&mut self, value: &str) -> (ret: &mut Self)
        ensures
            ret@ == (TransactionDraft { payee: value@, ..old(self)@ }),
            *final(self) == *final(ret),
    {
        self.payee = value.to_owned();
        self
    }

    pub fn category(&mut self, value: &str) -> (ret: &mut Self)
        ensures
            ret@ == (TransactionDraft { category: value@, ..old(self)@ }),
            *final(self) == *final(ret),
    {
        self.category = value.to_owned();
        self
    }

    pub fn cleared_status(&mut self, value: &str) -> (ret: &mut Self)
        ensures
            ret@ == (TransactionDraft { cleared_status: value@, ..old(self)@ }),
            *final(self) == *final(ret),
    {
        self.cleared_status = value.to_owned();
        self
    }

    /// Replaces the lines of the address.
    pub fn address(&mut self, value: Vec<String>) -> (ret: &mut Self)
        ensures
            ret@ == (TransactionDraft { address: texts(value@), ..old(self)@ }),
            *final(self) == *final(ret),
    {
        self.address = value;
        self
    }

    /// Replaces the splits added so far.
    pub fn splits(&mut self, value: Vec<QifSplit>) -> (ret: &mut Self)
        ensures
            ret@ == (TransactionDraft { splits: split_views(value@), ..old(self)@ }),
            *final(self) == *final(ret),
    {
        self.splits = value;
        self
    }

    pub fn number_of_the_check(&mut self, value: &str) -> (ret: &mut Self)
        ensures
            ret@ == (TransactionDraft { number_of_the_check: value@, ..old(self)@ }),
            *final(self) == *final(ret),
    {
        self.number_of_the_check = value.to_owned();
        self
    }

    /// Takes in one tagged line of a record, as `TransactionDraft::applied`
    /// describes. Dates are read under `date_format`. Where the line cannot
    /// be read the builder stays as it was.
    pub fn field(&mut self, tag: char, payload: &str, date_format: &str) -> (r: Result<
        (),
        QifParsingError,
    >)
        ensures
            match old(self)@.applied(tag, payload@, date_format@) {
                Ok(draft) => r is Ok && final(self)@ == draft,
                Err(e) => r is Err && r->Err_0@ == e && final(self)@ == old(self)@,
            },
    {
        if tag == 'D' {
            match parse_date(payload, date_format) {
                Ok(date) => {
                    self.date = Some(date);
                    Ok(())
                },
                Err(e) => Err(e),
            }
        } else if tag == 'T' || tag == 'U' {
            match parse_amount(payload) {
                Ok(amount) => {
                    self.amount = Some(amount);
                    Ok(())
                },
                Err(e) => Err(e),
            }
        } else if tag == 'P' {
            self.payee = payload.to_owned();
            Ok(())
        } else if tag == 'M' {
            self.memo = payload.to_owned();
            Ok(())
        } else if tag == 'L' {
            self.category = payload.to_owned();
            Ok(())
        } else if tag == 'C' {
            self.cleared_status = payload.to_owned();
            Ok(())
        } else if tag == 'N' {
            self.number_of_the_check = payload.to_owned();
            Ok(())
        } else if tag == 'A' {
            self.address.push(payload.to_owned());
            assert(texts(self.address@) =~= texts(old(self).address@).push(payload@));
            Ok(())
        } else if tag == 'S' {
            self.split.category(payload);
            Ok(())
        } else if tag == 'E' {
            self.split.memo(payload);
            Ok(())
        } else if tag == '$' {
            match parse_amount(payload) {
                Ok(amount) => {
                    self.split.amount(amount);
                    match self.split.build() {
                        Ok(split) => {
                            self.splits.push(split);
                            self.split = QifSplitBuilder::default();
                            assert(split_views(self.splits@) =~= split_views(
                                old(self).splits@,
                            ).push(split@));
                            Ok(())
                        },
                        Err(e) => Err(e),
                    }
                },
                Err(e) => Err(e),
            }
        } else {
            Ok(())
        }
    }

    /// The transaction gathered so far, as `TransactionDraft::finished`
    /// describes. The builder is left as it is.
    pub fn build(&self) -> (r: Result<QifTransaction, QifParsingError>)
        ensures
            match self@.finished() {
                Ok(transaction) => r is Ok && r->Ok_0@ == transaction,
                Err(e) => r is Err && r->Err_0@ == e,
            },
    {
        match (&self.date, self.amount) {
            (None, _) => Err(QifParsingError::MissingRequiredField("date".to_owned())),
            (Some(_), None) => Err(QifParsingError::MissingRequiredField("amount".to_owned())),
            (Some(date), Some(amount)) => Ok(
                QifTransaction {
                    date: date.clone(),
                    amount,
                    memo: self.memo.clone(),
                    payee: self.payee.clone(),
                    category: self.category.clone(),
                    cleared_status: self.cleared_status.clone(),
                    address: copy_texts(&self.address),
                    splits: copy_splits(&self.splits),
                    number_of_the_check: self.number_of_the_check.clone(),
                },
            ),
        }
    }
}

} // verus!
