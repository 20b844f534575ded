//! The one error type of all decoders and encoders.

use crate::number::IntErrorKind;
use crate::text::{chars_of, push_str, string_of};
use vstd::prelude::*;

verus! {

/// The csv crate's error for input that it cannot split into records.
#[verifier::external_type_specification]
#[verifier::external_body]
pub struct ExCsvError(csv::Error);

/// Why a statement could not be decoded or encoded.
#[derive(Debug)]
pub enum ParseError {
    /// The csv crate refused the input or the output.
    Csv(csv::Error),
    /// A date did not match its pattern; the words are chrono's.
    Date(String),
    /// A number was not a decimal integer of its type.
    Int(IntErrorKind),
    /// No currency could be determined.
    InvalidCurrency(String),
    /// An amount, or the direction mark that gives it its sign, is malformed.
    InvalidAmount(String),
    /// A direction is neither debit nor credit.
    InvalidDirection(String),
    /// A required field is absent.
    MissingField(&'static str),
    /// A row fills both the debit and the credit amount, or neither.
    AmountSideConflict,
    /// The header or the footer of a CSV export is malformed.
    Header(String),
    /// The input breaks the structure of its format.
    BadInput(String),
    /// An MT940 tag line is malformed.
    Mt940Tag(String),
}

/// An error without its message: what contracts speak of.
#[derive(Clone, Copy, Debug, PartialEq, Eq, Structural)]
pub enum ErrorKind {
    Csv,
    Date,
    Int,
    InvalidCurrency,
    InvalidAmount,
    InvalidDirection,
    MissingField,
    AmountSideConflict,
    Header,
    BadInput,
    Mt940Tag,
}

impl ParseError {
    /// The kind of this error.
    pub open spec fn kind(&self) -> ErrorKind {
        match self {
            ParseError::Csv(_) => ErrorKind::Csv,
            ParseError::Date(_) => ErrorKind::Date,
            ParseError::Int(_) => ErrorKind::Int,
            ParseError::InvalidCurrency(_) => ErrorKind::InvalidCurrency,
            ParseError::InvalidAmount(_) => ErrorKind::InvalidAmount,
            ParseError::InvalidDirection(_) => ErrorKind::InvalidDirection,
            ParseError::MissingField(_) => ErrorKind::MissingField,
            ParseError::AmountSideConflict => ErrorKind::AmountSideConflict,
            ParseError::Header(_) => ErrorKind::Header,
            ParseError::BadInput(_) => ErrorKind::BadInput,
            ParseError::Mt940Tag(_) => ErrorKind::Mt940Tag,
        }
    }

    /// The kind of this error.
    pub fn kind_of(&self) -> (k: ErrorKind)
        ensures
            k == self.kind(),
    {
        match self {
            ParseError::Csv(_) => ErrorKind::Csv,
            ParseError::Date(_) => ErrorKind::Date,
            ParseError::Int(_) => ErrorKind::Int,
            ParseError::InvalidCurrency(_) => ErrorKind::InvalidCurrency,
            ParseError::InvalidAmount(_) => ErrorKind::InvalidAmount,
            ParseError::InvalidDirection(_) => ErrorKind::InvalidDirection,
            ParseError::MissingField(_) => ErrorKind::MissingField,
            ParseError::AmountSideConflict => ErrorKind::AmountSideConflict,
            ParseError::Header(_) => ErrorKind::Header,
            ParseError::BadInput(_) => ErrorKind::BadInput,
            ParseError::Mt940Tag(_) => ErrorKind::Mt940Tag,
        }
    }

    /// The words that open the message of an error of the given kind.
    pub open spec fn prefix(kind: ErrorKind) -> Seq<char> {
        match kind {
            ErrorKind::Csv => "CSV error: "@,
            ErrorKind::Date => "date parse error: "@,
            ErrorKind::Int => "number parse error: "@,
            ErrorKind::InvalidCurrency => "invalid currency: "@,
            ErrorKind::InvalidAmount => "invalid amount: "@,
            ErrorKind::InvalidDirection => "invalid direction: "@,
            ErrorKind::MissingField => "missing field: "@,
            ErrorKind::AmountSideConflict => "both debit and credit amount present or both empty"@,
            ErrorKind::Header => "invalid header: "@,
            ErrorKind::BadInput => "bad input: "@,
            ErrorKind::Mt940Tag => "bad mt940 tag: "@,
        }
    }

    /// What follows the opening words in the message of this error. Of the
    /// csv crate's words nothing is stated.
    pub open spec fn detail(&self) -> Seq<char> {
        match self {
            ParseError::Csv(e) => Seq::empty(),
            ParseError::Date(s) => s@,
            ParseError::Int(k) => int_error_text(*k),
            ParseError::InvalidCurrency(s) => s@,
            ParseError::InvalidAmount(s) => s@,
            ParseError::InvalidDirection(s) => s@,
            ParseError::MissingField(s) => s@,
            ParseError::AmountSideConflict => Seq::empty(),
            ParseError::Header(s) => s@,
            ParseError::BadInput(s) => s@,
            ParseError::Mt940Tag(s) => s@,
        }
    }

    /// The message of this error: the opening words of its kind, then the
    /// detail it carries.
    pub fn message(&self) -> (r: String)
        ensures
            self.kind() != ErrorKind::Csv ==> r@ == Self::prefix(self.kind()) + self.detail(),
            crate::text::starts_with(r@, Self::prefix(self.kind())),
    {
        let mut out: Vec<char> = Vec::new();
        match self {
            ParseError::Csv(e) => {
                push_str(&mut out, "CSV error: ");
                let text = csv_error_text(e);
                push_str(&mut out, text.as_str());
            },
            ParseError::Date(s) => {
                push_str(&mut out, "date parse error: ");
                push_str(&mut out, s.as_str());
            },
            ParseError::Int(k) => {
                push_str(&mut out, "number parse error: ");
                push_str(&mut out, int_error_words(*k));
            },
            ParseError::InvalidCurrency(s) => {
                push_str(&mut out, "invalid currency: ");
                push_str(&mut out, s.as_str());
            },
            ParseError::InvalidAmount(s) => {
                push_str(&mut out, "invalid amount: ");
                push_str(&mut out, s.as_str());
            },
            ParseError::InvalidDirection(s) => {
                push_str(&mut out, "invalid direction: ");
                push_str(&mut out, s.as_str());
            },
            ParseError::MissingField(s) => {
                push_str(&mut out, "missing field: ");
                push_str(&mut out, s);
            },
            ParseError::AmountSideConflict => {
                push_str(&mut out, "both debit and credit amount present or both empty");
            },
            ParseError::Header(s) => {
                push_str(&mut out, "invalid header: ");
                push_str(&mut out, s.as_str());
            },
            ParseError::BadInput(s) => {
                push_str(&mut out, "bad input: ");
                push_str(&mut out, s.as_str());
            },
            ParseError::Mt940Tag(s) => {
                push_str(&mut out, "bad mt940 tag: ");
                push_str(&mut out, s.as_str());
            },
        }
        let ghost p = Self::prefix(self.kind());
        assert(out@.subrange(0, p.len() as int) =~= p);
        assert(out@ =~= out@ + Seq::<char>::empty());
        string_of(out.as_slice())
    }
}

/// Whether an outcome is the one that a contract names: the same value, or
/// an error of the same kind.
pub open spec fn same_outcome<T>(r: Result<T, ParseError>, expected: Result<T, ErrorKind>) -> bool {
    match r {
        Ok(v) => expected == Ok::<T, ErrorKind>(v),
        Err(e) => expected == Err::<T, ErrorKind>(e.kind()),
    }
}

/// The words for a number that could not be read.
pub open spec fn int_error_text(k: IntErrorKind) -> Seq<char> {
    match k {
        IntErrorKind::Empty => "cannot parse integer from empty string"@,
        IntErrorKind::InvalidDigit => "invalid digit found in string"@,
        IntErrorKind::PosOverflow => "number too large to fit in target type"@,
        IntErrorKind::NegOverflow => "number too small to fit in target type"@,
    }
}

fn int_error_words(k: IntErrorKind) -> (r: &'static str)
    ensures
        r@ == int_error_text(k),
{
    match k {
        IntErrorKind::Empty => "cannot parse integer from empty string",
        IntErrorKind::InvalidDigit => "invalid digit found in string",
        IntErrorKind::PosOverflow => "number too large to fit in target type",
        IntErrorKind::NegOverflow => "number too small to fit in target type",
    }
}

/// The csv crate's own words for its error.
#[verifier::external_body]
fn csv_error_text(e: &csv::Error) -> String {
    e.to_string()
}

/// Builds a message from a fixed opening and a quoted piece of the input.
pub fn quoted(opening: &str, piece: &[char]) -> (r: String)
    ensures
        r@ == opening@ + seq!['\''] + piece@ + seq!['\''],
{
    let mut out = chars_of(opening);
    out.push('\'');
    crate::text::push_chars(&mut out, piece);
    out.push('\'');
    assert(out@ =~= opening@ + seq!['\''] + piece@ + seq!['\'']);
    string_of(out.as_slice())
}

/// Builds a message from a fixed opening and a piece of the input.
pub fn with_detail(opening: &str, piece: &[char]) -> (r: String)
    ensures
        r@ == opening@ + piece@,
{
    let mut out = chars_of(opening);
    crate::text::push_chars(&mut out, piece);
    string_of(out.as_slice())
}

} // verus!
