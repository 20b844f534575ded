//! Encoding a statement into each of the three formats.

pub mod camt053_helpers;
pub mod common;
pub mod csv_helpers;
pub mod mt940_helpers;

use crate::camt053::models::Camt053Document;
use crate::csv_parser::rows_view;
use crate::date::Timestamp;
use crate::error::ParseError;
use crate::model::Statement;
use crate::serialization::camt053_helpers::{document_of, is_document_of};
use crate::serialization::csv_helpers::{csv_document, csv_text, document_rows, encode_rows};
use crate::serialization::mt940_helpers::{mt940_message_text, mt940_text};
use vstd::prelude::*;

verus! {

/// Whether an outcome is the CSV text of the given rows: the text where the
/// csv crate writes every row, and its error otherwise.
pub open spec fn is_csv_of(r: Result<String, ParseError>, rows: Seq<Seq<Seq<char>>>) -> bool {
    match r {
        Ok(text) => csv_text(rows, rows.len() as int) == Some(text@),
        Err(e) => e is Csv && csv_text(rows, rows.len() as int) is None,
    }
}

impl Statement {
    /// The rows of the CSV export of the statement, made at the time `now`.
    pub fn csv_rows(&self, now: Timestamp) -> (r: Vec<Vec<String>>)
        ensures
            rows_view(r@) == csv_document(self@, now.day(), now.clock()),
    {
        document_rows(self, now)
    }

    /// The statement as the text of a CSV export, made at the time `now`.
    pub fn write_csv_at(&self, now: Timestamp) -> (r: Result<String, ParseError>)
        ensures
            is_csv_of(r, csv_document(self@, now.day(), now.clock())),
    {
        let rows = self.csv_rows(now);
        encode_rows(rows.as_slice())
    }

    /// The statement as the text of a CSV export, made now.
    pub fn write_csv(&self) -> (r: Result<String, ParseError>)
        ensures
            exists|now: Timestamp| is_csv_of(r, csv_document(self@, now.day(), now.clock())),
    {
        let now = Timestamp::now();
        self.write_csv_at(now)
    }

    /// The statement as a camt.053 message, made at the time `now`.
    pub fn write_camt053_at(&self, now: Timestamp) -> (r: Camt053Document)
        ensures
            is_document_of(r, self@, now.day(), now.clock()),
    {
        document_of(self, now)
    }

    /// The statement as a camt.053 message, made now.
    pub fn write_camt053(&self) -> (r: Camt053Document)
        ensures
            exists|now: Timestamp| is_document_of(r, self@, now.day(), now.clock()),
    {
        let now = Timestamp::now();
        self.write_camt053_at(now)
    }

    /// The statement as the text of one MT940 message.
    pub fn write_mt940(&self) -> (r: String)
        ensures
            r@ == mt940_text(self@),
    {
        mt940_message_text(self)
    }
}

} // verus!
