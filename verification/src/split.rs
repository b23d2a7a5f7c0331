//! One line item of a transaction, and the builder that gathers it.

use crate::errors::{ErrorView, QifParsingError};
use vstd::prelude::*;

verus! {

/// A part of a transaction's amount with a category and a memo of its own.
/// Nothing ties the amounts of the splits to the amount of the transaction.
#[derive(Debug, Clone, PartialEq, Eq, Default)]
pub struct QifSplit {
    pub category: String,
    pub memo: String,
    /// In hundredths.
    pub amount: i64,
}

pub struct SplitView {
    pub category: Seq<char>,
    pub memo: Seq<char>,
    pub amount: i64,
}

impl View for QifSplit {
    type V = SplitView;

    open spec fn view(&self) -> SplitView {
        SplitView { category: self.category@, memo: self.memo@, amount: self.amount }
    }
}

pub open spec fn split_views(splits: Seq<QifSplit>) -> Seq<SplitView> {
    splits.map_values(|s: QifSplit| s@)
}

/// The texts of a list, each as a sequence of characters.
pub open spec fn texts(list: Seq<String>) -> Seq<Seq<char>> {
    list.map_values(|t: String| t@)
}

impl QifSplit {
    /// A split that holds the same as this one.
    pub fn duplicate(&self) -> (out: QifSplit)
        ensures
            out@ == self@,
    {
        QifSplit { category: self.category.clone(), memo: self.memo.clone(), amount: self.amount }
    }
}

/// A list with the same texts, in the same order.
pub(crate) fn copy_texts(list: &Vec<String>) -> (out: Vec<String>)
    ensures
        texts(out@) == texts(list@),
{
    let mut out: Vec<String> = Vec::new();
    let mut i: usize = 0;
    while i < list.len()
        invariant
            i <= list.len(),
            out@.len() == i,
            forall|j: int| 0 <= j < i ==> out@[j]@ == list@[j]@,
        decreases list.len() - i,
    {
        out.push(list[i].clone());
        i += 1;
    }
    assert(texts(out@) =~= texts(list@));
    out
}

/// A list with the same splits, in the same order.
pub(crate) fn copy_splits(list: &Vec<QifSplit>) -> (out: Vec<QifSplit>)
    ensures
        split_views(out@) == split_views(list@),
{
    let mut out: Vec<QifSplit> = Vec::new();
    let mut i: usize = 0;
    while i < list.len()
        invariant
            i <= list.len(),
            out@.len() == i,
            forall|j: int| 0 <= j < i ==> out@[j]@ == list@[j]@,
        decreases list.len() - i,
    {
        out.push(list[i].duplicate());
        i += 1;
    }
    assert(split_views(out@) =~= split_views(list@));
    out
}

/// What a split builder has been given so far.
pub struct SplitDraft {
    pub category: Seq<char>,
    pub memo: Seq<char>,
    pub amount: Option<i64>,
}

impl SplitDraft {
    pub open spec fn empty() -> SplitDraft {
        SplitDraft { category: Seq::empty(), memo: Seq::empty(), amount: None }
    }

    /// The split that the draft makes, once it has an amount.
    pub open spec fn finished(self) -> Result<SplitView, ErrorView> {
        match self.amount {
            Some(amount) => Ok(SplitView { category: self.category, memo: self.memo, amount }),
            None => Err(ErrorView::MissingRequiredField("amount"@)),
        }
    }
}

/// Gathers the fields of one split. Category and memo are empty until given;
/// the amount must be given before the split can be built.
#[derive(Debug, Clone)]
pub struct QifSplitBuilder {
    category: String,
    memo: String,
    amount: Option<i64>,
}

impl View for QifSplitBuilder {
    type V = SplitDraft;

    closed spec fn view(&self) -> SplitDraft {
        SplitDraft { category: self.category@, memo: self.memo@, amount: self.amount }
    }
}

impl Default for QifSplitBuilder {
    fn default() -> (out: QifSplitBuilder)
        ensures
            out@ == SplitDraft::empty(),
    {
        QifSplitBuilder { category: String::new(), memo: String::new(), amount: None }
    }
}

impl QifSplitBuilder {
    pub fn category(&mut self, value: &str) -> (ret: &mut Self)
        ensures
            ret@ == (SplitDraft { category: value@, ..old(self)@ }),
            *final(self) == *final(ret),
    {
        self.category = value.to_owned();
        self
    }

    pub fn memo(&mut self, value: &str) -> (ret: &mut Self)
        ensures
            ret@ == (SplitDraft { memo: value@, ..old(self)@ }),
            *final(self) == *final(ret),
    {
        self.memo = value.to_owned();
        self
    }

    pub fn amount(&mut self, value: i64) -> (ret: &mut Self)
        ensures
            ret@ == (SplitDraft { amount: Some(value), ..old(self)@ }),
            *final(self) == *final(ret),
    {
        self.amount = Some(value);
        self
    }

    /// The split gathered so far. Without an amount there is none, and the
    /// error names the amount.
    pub fn build(&self) -> (r: Result<QifSplit, QifParsingError>)
        ensures
            match self@.finished() {
                Ok(split) => r is Ok && r->Ok_0@ == split,
                Err(e) => r is Err && r->Err_0@ == e,
            },
    {
        match self.amount {
            Some(amount) => Ok(
                QifSplit { category: self.category.clone(), memo: self.memo.clone(), amount },
            ),
            None => Err(QifParsingError::MissingRequiredField("amount".to_owned())),
        }
    }
}

} // verus!
