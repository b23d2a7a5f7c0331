//! Investment transactions, and the builder that gathers one from the tagged
//! lines of a record.

use crate::amount::{parse_amount, scaled_amount};
use crate::date::{normalized_date, parse_date};
use crate::errors::{ErrorView, QifParsingError};
use crate::text::{decimal_text, push_decimal, push_text};
use vstd::prelude::*;

verus! {

/// Represents an investment. Every number is in hundredths.
#[derive(Debug, Clone, PartialEq, Eq, Default)]
pub struct QifInvestment {
    /// As `YYYY-MM-DD` where it was read from a `D` line.
    pub date: String,
    pub amount: i64,
    pub memo: String,
    pub cleared_status: String,
    pub action: String,
    pub security_name: String,
    pub price: i64,
    pub quantity: i64,
    pub commission_cost: i64,
    pub amount_transferred: i64,
}

pub struct InvestmentView {
    pub date: Seq<char>,
    pub amount: i64,
    pub memo: Seq<char>,
    pub cleared_status: Seq<char>,
    pub action: Seq<char>,
    pub security_name: Seq<char>,
    pub price: i64,
    pub quantity: i64,
    pub commission_cost: i64,
    pub amount_transferred: i64,
}

impl View for QifInvestment {
    type V = InvestmentView;

    open spec fn view(&self) -> InvestmentView {
        InvestmentView {
            date: self.date@,
            amount: self.amount,
            memo: self.memo@,
            cleared_status: self.cleared_status@,
            action: self.action@,
            security_name: self.security_name@,
            price: self.price,
            quantity: self.quantity,
            commission_cost: self.commission_cost,
            amount_transferred: self.amount_transferred,
        }
    }
}

impl InvestmentView {
    /// Date, amount, action, name of the security and memo on one line, with
    /// a blank between each two.
    pub open spec fn line(self) -> Seq<char> {
        self.date + seq![' '] + decimal_text(self.amount as int) + seq![' '] + self.action
            + seq![' '] + self.security_name + seq![' '] + self.memo
    }
}

impl QifInvestment {
    /// An investment that holds the same as this one.
    pub fn duplicate(&self) -> (out: QifInvestment)
        ensures
            out@ == self@,
    {
        QifInvestment {
            date: self.date.clone(),
            amount: self.amount,
            memo: self.memo.clone(),
            cleared_status: self.cleared_status.clone(),
            action: self.action.clone(),
            security_name: self.security_name.clone(),
            price: self.price,
            quantity: self.quantity,
            commission_cost: self.commission_cost,
            amount_transferred: self.amount_transferred,
        }
    }

    /// The investment on one line, for people to read.
    pub fn to_text(&self) -> (out: String)
        ensures
            out@ == self@.line(),
    {
        let mut out = String::new();
        push_text(&mut out, self.date.as_str());
        out.push(' ');
        push_decimal(&mut out, self.amount);
        out.push(' ');
        push_text(&mut out, self.action.as_str());
        out.push(' ');
        push_text(&mut out, self.security_name.as_str());
        out.push(' ');
        push_text(&mut out, self.memo.as_str());
        assert(out@ =~= self@.line());
        out
    }
}

/// What an investment builder has been given so far.
pub struct InvestmentDraft {
    pub date: Option<Seq<char>>,
    pub amount: Option<i64>,
    pub memo: Seq<char>,
    pub cleared_status: Seq<char>,
    pub action: Seq<char>,
    pub security_name: Seq<char>,
    pub price: i64,
    pub quantity: i64,
    pub commission_cost: i64,
    pub amount_transferred: i64,
}

impl InvestmentDraft {
    pub open spec fn empty() -> InvestmentDraft {
        InvestmentDraft {
            date: None,
            amount: None,
            memo: Seq::empty(),
            cleared_status: Seq::empty(),
            action: Seq::empty(),
            security_name: Seq::empty(),
            price: 0,
            quantity: 0,
            commission_cost: 0,
            amount_transferred: 0,
        }
    }

    /// The draft with the number read from a line put where `tag` says; the
    /// draft itself for a tag that carries no number.
    pub open spec fn with_number(self, tag: char, value: i64) -> InvestmentDraft {
        if tag == 'T' || tag == 'U' {
            InvestmentDraft { amount: Some(value), ..self }
        } else if tag == 'I' {
            InvestmentDraft { price: value, ..self }
        } else if tag == 'Q' {
            InvestmentDraft { quantity: value, ..self }
        } else if tag == 'O' {
            InvestmentDraft { commission_cost: value, ..self }
        } else if tag == '$' {
            InvestmentDraft { amount_transferred: value, ..self }
        } else {
            self
        }
    }

    /// The tags whose line carries a number.
    pub open spec fn is_number_tag(tag: char) -> bool {
        tag == 'T' || tag == 'U' || tag == 'I' || tag == 'Q' || tag == 'O' || tag == '$'
    }

    /// The draft after one tagged line. `D` sets the date, `T` and `U` the
    /// amount, `M` the memo, `C` the cleared status, `N` the action, `Y` the
    /// name of the security, `I` the price, `Q` the quantity, `O` the cost of
    /// the commission and `$` the amount transferred. Any other tag leaves
    /// the draft as it was. A date or a number that cannot be read is an
    /// error.
    pub open spec fn applied(self, tag: char, payload: Seq<char>, format: Seq<char>) -> Result<
        InvestmentDraft,
        ErrorView,
    > {
        if tag == 'D' {
            match normalized_date(payload, format) {
                Some(date) => Ok(InvestmentDraft { date: Some(date), ..self }),
                None => Err(ErrorView::InvalidDate(payload, format)),
            }
        } else if Self::is_number_tag(tag) {
            match scaled_amount(payload) {
                Some(value) => Ok(self.with_number(tag, value)),
                None => Err(ErrorView::InvalidAmount(payload)),
            }
        } else if tag == 'M' {
            Ok(InvestmentDraft { memo: payload, ..self })
        } else if tag == 'C' {
            Ok(InvestmentDraft { cleared_status: payload, ..self })
        } else if tag == 'N' {
            Ok(InvestmentDraft { action: payload, ..self })
        } else if tag == 'Y' {
            Ok(InvestmentDraft { security_name: payload, ..self })
        } else {
            Ok(self)
        }
    }

    /// The investment that the draft makes. The date and the amount must
    /// have been given; the error names the first of the two that is missing.
    pub open spec fn finished(self) -> Result<InvestmentView, ErrorView> {
        if self.date is None {
            Err(ErrorView::MissingRequiredField("date"@))
        } else if self.amount is None {
            Err(ErrorView::MissingRequiredField("amount"@))
        } else {
            Ok(
                InvestmentView {
                    date: self.date->0,
                    amount: self.amount->0,
                    memo: self.memo,
                    cleared_status: self.cleared_status,
                    action: self.action,
                    security_name: self.security_name,
                    price: self.price,
                    quantity: self.quantity,
                    commission_cost: self.commission_cost,
                    amount_transferred: self.amount_transferred,
                },
            )
        }
    }
}

/// Gathers the fields of one investment, by name or from tagged lines.
#[derive(Debug, Clone)]
pub struct QifInvestmentBuilder {
    date: Option<String>,
    amount: Option<i64>,
    memo: String,
    cleared_status: String,
    action: String,
    security_name: String,
    price: i64,
    quantity: i64,
    commission_cost: i64,
    amount_transferred: i64,
}

impl View for QifInvestmentBuilder {
    type V = InvestmentDraft;

    closed spec fn view(&self) -> InvestmentDraft {
        InvestmentDraft {
            date: match self.date {
                Some(date) => Some(date@),
                None => None,
            },
            amount: self.amount,
            memo: self.memo@,
            cleared_status: self.cleared_status@,
            action: self.action@,
            security_name: self.security_name@,
            price: self.price,
            quantity: self.quantity,
            commission_cost: self.commission_cost,
            amount_transferred: self.amount_transferred,
        }
    }
}

impl Default for QifInvestmentBuilder {
    fn default() -> (out: QifInvestmentBuilder)
        ensures
            out@ == InvestmentDraft::empty(),
    {
        QifInvestmentBuilder {
            date: None,
            amount: None,
            memo: String::new(),
            cleared_status: String::new(),
            action: String::new(),
            security_name: String::new(),
            price: 0,
            quantity: 0,
            commission_cost: 0,
            amount_transferred: 0,
        }
    }
}

impl QifInvestmentBuilder {
    /// Sets the date to the text as given, without reading it.
    pub fn date(&mut self, value: String) -> (ret: &mut Self)
        ensures
            ret@ == (InvestmentDraft { date: Some(value@), ..old(self)@ }),
            *final(self) == *final(ret),
    {
        self.date = Some(value);
        self
    }

    pub fn amount(&mut self, value: i64) -> (ret: &mut Self)
        ensures
            ret@ == (InvestmentDraft { amount: Some(value), ..old(self)@ }),
            *final(self) == *final(ret),
    {
        self.amount = Some(value);
        self
    }

    pub fn memo(&mut self, value: &str) -> (ret: &mut Self)
        ensures
            ret@ == (InvestmentDraft { memo: value@, ..old(self)@ }),
            *final(self) == *final(ret),
    {
        self.memo = value.to_owned();
        self
    }

    pub fn cleared_status(&mut self, value: &str) -> (ret: &mut Self)
        ensures
            ret@ == (InvestmentDraft { cleared_status: value@, ..old(self)@ }),
            *final(self) == *final(ret),
    {
        self.cleared_status = value.to_owned();
        self
    }

    pub fn action(&mut self, value: &str) -> (ret: &mut Self)
        ensures
            ret@ == (InvestmentDraft { action: value@, ..old(self)@ }),
            *final(self) == *final(ret),
    {
        self.action = value.to_owned();
        self
    }

    pub fn security_name(&mut self, value: &str) -> (ret: &mut Self)
        ensures
            ret@ == (InvestmentDraft { security_name: value@, ..old(self)@ }),
            *final(self) == *final(ret),
    {
        self.security_name = value.to_owned();
        self
    }

    pub fn price(&mut self, value: i64) -> (ret: &mut Self)
        ensures
            ret@ == (InvestmentDraft { price: value, ..old(self)@ }),
            *final(self) == *final(ret),
    {
        self.price = value;
        self
    }

    pub fn quantity(&mut self, value: i64) -> (ret: &mut Self)
        ensures
            ret@ == (InvestmentDraft { quantity: value, ..old(self)@ }),
            *final(self) == *final(ret),
    {
        self.quantity = value;
        self
    }

    pub fn commission_cost(&mut self, value: i64) -> (ret: &mut Self)
        ensures
            ret@ == (InvestmentDraft { commission_cost: value, ..old(self)@ }),
            *final(self) == *final(ret),
    {
        self.commission_cost = value;
        self
    }

    pub fn amount_transferred(&mut self, value: i64) -> (ret: &mut Self)
        ensures
            ret@ == (InvestmentDraft { amount_transferred: value, ..old(self)@ }),
            *final(self) == *final(ret),
    {
        self.amount_transferred = value;
        self
    }

    /// Takes in one tagged line of a record, as `InvestmentDraft::applied`
    /// describes. Dates are read under `date_format`. Where the line cannot
    /// be read the builder stays as it was.
    pub fn field(&mut self, tag: char, payload: &str, date_format: &str) -> (r: Result<
        (),
        QifParsingError,
    >)
        ensures
            match old(self)@.applied(tag, payload@, date_format@) {
                Ok(draft) => r is Ok && final(self)@ == draft,
                Err(e) => r is Err && r->Err_0@ == e && final(self)@ == old(self)@,
            },
    {
        if tag == 'D' {
            match parse_date(payload, date_format) {
                Ok(date) => {
                    self.date = Some(date);
                    Ok(())
                },
                Err(e) => Err(e),
            }
        } else if tag == 'T' || tag == 'U' || tag == 'I' || tag == 'Q' || tag == 'O' || tag
            == '$' {
            match parse_amount(payload) {
                Ok(value) => {
                    if tag == 'T' || tag == 'U' {
                        self.amount = Some(value);
                    } else if tag == 'I' {
                        self.price = value;
                    } else if tag == 'Q' {
                        self.quantity = value;
                    } else if tag == 'O' {
                        self.commission_cost = value;
                    } else {
                        self.amount_transferred = value;
                    }
                    Ok(())
                },
                Err(e) => Err(e),
            }
        } else if tag == 'M' {
            self.memo = payload.to_owned();
            Ok(())
        } else if tag == 'C' {
            self.cleared_status = payload.to_owned();
            Ok(())
        } else if tag == 'N' {
            self.action = payload.to_owned();
            Ok(())
        } else if tag == 'Y' {
            self.security_name = payload.to_owned();
            Ok(())
        } else {
            Ok(())
        }
    }

    /// The investment gathered so far, as `InvestmentDraft::finished`
    /// describes. The builder is left as it is.
    pub fn build(&self) -> (r: Result<QifInvestment, QifParsingError>)
        ensures
            match self@.finished() {
                Ok(investment) => r is Ok && r->Ok_0@ == investment,
                Err(e) => r is Err && r->Err_0@ == e,
            },
    {
        match (&self.date, self.amount) {
            (None, _) => Err(QifParsingError::MissingRequiredField("date".to_owned())),
            (Some(_), None) => Err(QifParsingError::MissingRequiredField("amount".to_owned())),
            (Some(date), Some(amount)) => Ok(
                QifInvestment {
                    date: date.clone(),
                    amount,
                    memo: self.memo.clone(),
                    cleared_status: self.cleared_status.clone(),
                    action: self.action.clone(),
                    security_name: self.security_name.clone(),
                    price: self.price,
                    quantity: self.quantity,
                    commission_cost: self.commission_cost,
                    amount_transferred: self.amount_transferred,
                },
            ),
        }
    }
}

} // verus!
