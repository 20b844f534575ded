//! Bank statement codecs: a fixed-layout CSV export, ISO 20022 camt.053 and
//! SWIFT MT940, all projected onto one canonical statement model.
//!
//! Every format decodes into a [`Statement`] and is encoded from one. The
//! decoders and encoders are verified against contracts that are stated over
//! sequences of characters:
//!
//! - [`text`] and [`number`] give the vocabulary: runs of characters of a
//!   class, trimming, searching, lines, words, decimal digits.
//! - [`date`] holds calendar dates and timestamps as plain numbers.
//! - [`model`] is the canonical statement, [`error`] the error of all codecs,
//!   [`utils`] reads amounts and currencies.
//! - [`mt940`], [`csv_parser`] and [`camt053`] decode; [`serialization`]
//!   encodes.
//! - [`laws`] proves what holds of the codecs together: amounts, balances
//!   and currencies are read back as they were written, balances carry the
//!   sign of their direction, the period of a statement that was read does
//!   not end before it begins, a statement survives an MT940 message and
//!   the rows of a CSV export, and a statement that was read from an MT940
//!   text is read back from the text that is written of it.
//!
//! # What is assumed
//!
//! The library calls into chrono, csv and regex, and into a few functions of
//! the standard library that have no specification of their own. Each call
//! stands in a function marked `external_body`, whose contract is assumed:
//!
//! - `date`: chrono's calendar (`NaiveDate::from_ymd_opt`), its printing of
//!   dates and times under the patterns in use, its reading of dates and
//!   times under a pattern, and its clock.
//! - `csv_parser` and `serialization::csv_helpers`: the csv crate's reading
//!   of records and its writing of one record.
//! - `mt940::utils`: the regex crate's matching of a pattern.
//! - `text`: `str::to_lowercase`, `str::to_uppercase` and `String::push`.
//! - `serialization::common`: `i128::from` for a `u64` and for an `i128`.
//! - `error`: the csv crate's words for its error.
//!
//! Where the result of such a call is too long to spell out, the contract
//! gives it a name (`chrono_date`, `chrono_date_time`, `csv_rows`, `csv_line`,
//! `regex_matches`, `lowercase_of`, `uppercase_of`), and the contracts of the
//! codecs speak of that name.

pub mod camt053;
pub mod csv_parser;
pub mod date;
pub mod error;
pub mod laws;
pub mod model;
pub mod mt940;
pub mod number;
pub mod serialization;
pub mod text;
pub mod utils;

pub use crate::camt053::Camt053Data;
pub use crate::csv_parser::CsvData;
pub use crate::error::ParseError;
pub use crate::model::{Balance, Currency, Direction, Statement, Transaction};
pub use crate::mt940::Mt940Data;
