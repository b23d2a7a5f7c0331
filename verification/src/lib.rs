//! Reader for Quicken Interchange text: amounts become integers counted in
//! hundredths, dates become `YYYY-MM-DD`, and tagged lines are gathered into
//! transaction or investment records.

pub mod amount;
pub mod date;
pub mod errors;
pub mod investment;
pub mod line;
pub mod parser;
pub mod record;
pub mod split;
pub mod text;
pub mod transaction;

pub use amount::{parse_amount, parse_number};
pub use date::parse_date;
pub use errors::QifParsingError;
pub use investment::{QifInvestment, QifInvestmentBuilder};
pub use line::{classify_line, classify_lines, QifLine};
pub use parser::{
    parse, parse_lenient, parse_strict, parse_with_format, Qif, QifReport, RecordAssembler,
};
pub use record::{QifItem, QifItemBuilder, RecordKind};
pub use split::{QifSplit, QifSplitBuilder};
pub use transaction::{QifTransaction, QifTransactionBuilder};
