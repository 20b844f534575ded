//! The fixed-layout CSV export of a bank: a header block, a table with a
//! two-row header, and a footer block.

pub mod utils;

use crate::csv_parser::utils::{
    amount_and_direction_of, cell, column_of, counterparty_account_of, extract_counterparty_account,
    find_col, first_holding, footer_balance_of, is_footer, is_footer_row,
    parse_amount_and_direction, parse_footer_balance, parse_rus_date, row_holds, rus_date_of,
    trimmed_cell,
};
use crate::date::{chrono_date, Date};
use crate::error::{ErrorKind, ParseError};
use crate::model::{
    date_outcome, ordered_or, statement_outcome, str_text, text_of, transaction_outcome,
    transaction_views, Balance, Statement, StatementView, Transaction, TransactionView,
};
use crate::text::{
    blank, chars_of, equals_str, has_prefix, is_blank, starts_with, string_of, string_views, trim,
    trim_of,
};
use crate::utils::{currency_of_text, parse_currency};
use vstd::prelude::*;

verus! {

/// The cells of a list of rows.
pub open spec fn rows_view(rows: Seq<Vec<String>>) -> Seq<Seq<Seq<char>>> {
    Seq::new(rows.len(), |i: int| string_views(rows[i]@))
}

/// What the csv crate reads out of a text without a header row: its
/// records, each as the list of its fields, or nothing where the crate
/// refuses the text.
pub uninterp spec fn csv_rows(data: Seq<u8>) -> Option<Seq<Seq<Seq<char>>>>;

/// `ReaderBuilder::has_headers(false)`, `from_reader` and `records`: all
/// records of the input in order, or the first error of the reader. Records
/// are the same for the same bytes.
#[verifier::external_body]
fn read_records(data: &[u8]) -> (r: Result<Vec<Vec<String>>, csv::Error>)
    ensures
        match r {
            Ok(rows) => csv_rows(data@) == Some(rows_view(rows@)),
            Err(_) => csv_rows(data@) is None,
        },
{
    csv::ReaderBuilder::new().has_headers(false).from_reader(data).records().map(
        |rec| rec.map(|r| r.iter().map(String::from).collect()),
    ).collect()
}

/// The header block of an export.
#[derive(Debug, Default)]
pub struct CsvHeader {
    pub creation_date: String,
    pub system: String,
    pub bank: String,
    pub client_account: String,
    pub client_name: String,
    pub period_from: String,
    pub period_until: String,
    pub currency: String,
    pub last_transaction_date: String,
}

/// What a `CsvHeader` stands for.
pub struct CsvHeaderView {
    pub creation_date: Seq<char>,
    pub system: Seq<char>,
    pub bank: Seq<char>,
    pub client_account: Seq<char>,
    pub client_name: Seq<char>,
    pub period_from: Seq<char>,
    pub period_until: Seq<char>,
    pub currency: Seq<char>,
    pub last_transaction_date: Seq<char>,
}

impl View for CsvHeader {
    type V = CsvHeaderView;

    open spec fn view(&self) -> CsvHeaderView {
        CsvHeaderView {
            creation_date: self.creation_date@,
            system: self.system@,
            bank: self.bank@,
            client_account: self.client_account@,
            client_name: self.client_name@,
            period_from: self.period_from@,
            period_until: self.period_until@,
            currency: self.currency@,
            last_transaction_date: self.last_transaction_date@,
        }
    }
}

/// The trimmed cell at a row and a column of a block of rows.
pub open spec fn block_cell(rows: Seq<Seq<Seq<char>>>, row: int, col: int) -> Seq<char> {
    trim(cell(rows[row], col))
}

/// The header that the rows before the table spell: each field stands at
/// its own row and column. Fewer than eight rows are malformed.
pub open spec fn header_of(rows: Seq<Seq<Seq<char>>>) -> Result<CsvHeaderView, ErrorKind> {
    if rows.len() < 8 {
        Err(ErrorKind::Header)
    } else {
        Ok(
            CsvHeaderView {
                creation_date: block_cell(rows, 3, 1),
                system: block_cell(rows, 1, 5),
                bank: block_cell(rows, 2, 1),
                client_account: block_cell(rows, 4, 12),
                client_name: block_cell(rows, 5, 12),
                period_from: block_cell(rows, 6, 2),
                period_until: block_cell(rows, 6, 15),
                currency: block_cell(rows, 7, 2),
                last_transaction_date: block_cell(rows, 7, 12),
            },
        )
    }
}

fn text_at(rows: &[Vec<String>], row: usize, col: usize) -> (r: String)
    requires
        row < rows.len(),
    ensures
        r@ == block_cell(rows_view(rows@), row as int, col as int),
{
    string_of(trimmed_cell(rows[row].as_slice(), col).as_slice())
}

impl CsvHeader {
    /// Reads the header block.
    pub fn from_string_records(rows: &[Vec<String>]) -> (r: Result<Self, ParseError>)
        ensures
            match r {
                Ok(h) => header_of(rows_view(rows@)) == Ok::<CsvHeaderView, ErrorKind>(h@),
                Err(e) => header_of(rows_view(rows@)) == Err::<CsvHeaderView, ErrorKind>(e.kind()),
            },
    {
        if rows.len() < 8 {
            return Err(ParseError::Header("invalid header: not enough rows".to_string()));
        }
        Ok(
            CsvHeader {
                creation_date: text_at(rows, 3, 1),
                system: text_at(rows, 1, 5),
                bank: text_at(rows, 2, 1),
                client_account: text_at(rows, 4, 12),
                client_name: text_at(rows, 5, 12),
                period_from: text_at(rows, 6, 2),
                period_until: text_at(rows, 6, 15),
                currency: text_at(rows, 7, 2),
                last_transaction_date: text_at(rows, 7, 12),
            },
        )
    }
}

/// In which column of the table each field stands.
#[derive(Debug, Clone, Copy)]
pub struct TableLayout {
    pub booking_date_col: usize,
    pub debit_account_col: usize,
    pub credit_account_col: usize,
    pub debit_amount_col: usize,
    pub credit_amount_col: usize,
    pub doc_number_col: usize,
    pub operation_type_col: usize,
    pub bank_col: usize,
    pub transaction_purpose_col: usize,
}

/// The layout that the two header rows of the table spell. The columns are
/// looked up in a fixed order, and the first that is missing gives the error.
pub open spec fn layout_of(headers: Seq<Seq<char>>, subheaders: Seq<Seq<char>>) -> Result<
    TableLayout,
    ErrorKind,
> {
    match (
        column_of(headers, "Дата проводки"@),
        column_of(subheaders, "Дебет"@),
        column_of(subheaders, "Кредит"@),
        column_of(headers, "№ документа"@),
        column_of(headers, "ВО"@),
        column_of(headers, "Банк"@),
        column_of(headers, "Назначение платежа"@),
        column_of(headers, "Сумма по дебету"@),
        column_of(headers, "Сумма по кредиту"@),
    ) {
        (
            Ok(booking_date_col),
            Ok(debit_account_col),
            Ok(credit_account_col),
            Ok(doc_number_col),
            Ok(operation_type_col),
            Ok(bank_col),
            Ok(transaction_purpose_col),
            Ok(debit_amount_col),
            Ok(credit_amount_col),
        ) => Ok(
            TableLayout {
                booking_date_col,
                debit_account_col,
                credit_account_col,
                debit_amount_col,
                credit_amount_col,
                doc_number_col,
                operation_type_col,
                bank_col,
                transaction_purpose_col,
            },
        ),
        _ => Err(ErrorKind::Header),
    }
}

impl TableLayout {
    /// Finds the columns of the table from its two header rows.
    pub fn from_string_records(headers_row: &[String], subheaders_row: &[String]) -> (r: Result<
        Self,
        ParseError,
    >)
        ensures
            crate::error::same_outcome(
                r,
                layout_of(string_views(headers_row@), string_views(subheaders_row@)),
            ),
    {
        let booking_date_col = match find_col(headers_row, "Дата проводки") {
            Ok(c) => c,
            Err(e) => {
                return Err(e);
            },
        };
        let debit_account_col = match find_col(subheaders_row, "Дебет") {
            Ok(c) => c,
            Err(e) => {
                return Err(e);
            },
        };
        let credit_account_col = match find_col(subheaders_row, "Кредит") {
            Ok(c) => c,
            Err(e) => {
                return Err(e);
            },
        };
        let doc_number_col = match find_col(headers_row, "№ документа") {
            Ok(c) => c,
            Err(e) => {
                return Err(e);
            },
        };
        let operation_type_col = match find_col(headers_row, "ВО") {
            Ok(c) => c,
            Err(e) => {
                return Err(e);
            },
        };
        let bank_col = match find_col(headers_row, "Банк") {
            Ok(c) => c,
            Err(e) => {
                return Err(e);
            },
        };
        let transaction_purpose_col = match find_col(headers_row, "Назначение платежа") {
            Ok(c) => c,
            Err(e) => {
                return Err(e);
            },
        };
        let debit_amount_col = match find_col(headers_row, "Сумма по дебету") {
            Ok(c) => c,
            Err(e) => {
                return Err(e);
            },
        };
        let credit_amount_col = match find_col(headers_row, "Сумма по кредиту") {
            Ok(c) => c,
            Err(e) => {
                return Err(e);
            },
        };
        Ok(
            TableLayout {
                booking_date_col,
                debit_account_col,
                credit_account_col,
                debit_amount_col,
                credit_amount_col,
                doc_number_col,
                operation_type_col,
                bank_col,
                transaction_purpose_col,
            },
        )
    }

    /// Whether a row of the given number of cells has all the columns that
    /// every record must fill.
    pub open spec fn fits(self, cells: nat) -> bool {
        &&& self.booking_date_col < cells
        &&& self.debit_account_col < cells
        &&& self.credit_account_col < cells
        &&& self.doc_number_col < cells
        &&& self.operation_type_col < cells
        &&& self.bank_col < cells
    }

    /// Tells whether a row has all the columns that every record must fill.
    pub fn covers(&self, cells: usize) -> (r: bool)
        ensures
            r == self.fits(cells as nat),
    {
        self.booking_date_col < cells && self.debit_account_col < cells
            && self.credit_account_col < cells && self.doc_number_col < cells
            && self.operation_type_col < cells && self.bank_col < cells
    }
}

/// One row of the table.
#[derive(Debug, Default)]
pub struct CsvRecord {
    pub booking_date: String,
    pub debit_account: String,
    pub credit_account: String,
    pub debit_amount: Option<String>,
    pub credit_amount: Option<String>,
    pub doc_number: String,
    pub operation_type: String,
    pub bank: String,
    pub transaction_purpose: Option<String>,
}

/// What a `CsvRecord` stands for.
pub struct CsvRecordView {
    pub booking_date: Seq<char>,
    pub debit_account: Seq<char>,
    pub credit_account: Seq<char>,
    pub debit_amount: Option<Seq<char>>,
    pub credit_amount: Option<Seq<char>>,
    pub doc_number: Seq<char>,
    pub operation_type: Seq<char>,
    pub bank: Seq<char>,
    pub transaction_purpose: Option<Seq<char>>,
}

impl View for CsvRecord {
    type V = CsvRecordView;

    open spec fn view(&self) -> CsvRecordView {
        CsvRecordView {
            booking_date: self.booking_date@,
            debit_account: self.debit_account@,
            credit_account: self.credit_account@,
            debit_amount: text_of(self.debit_amount),
            credit_amount: text_of(self.credit_amount),
            doc_number: self.doc_number@,
            operation_type: self.operation_type@,
            bank: self.bank@,
            transaction_purpose: text_of(self.transaction_purpose),
        }
    }
}

/// The trimmed cell of a row at a column, absent where the row is shorter.
pub open spec fn optional_cell(row: Seq<Seq<char>>, col: int) -> Option<Seq<char>> {
    if 0 <= col < row.len() {
        Some(trim(row[col]))
    } else {
        None
    }
}

/// The record that a row spells under a layout: each field is the trimmed
/// cell of its column.
pub open spec fn record_of(row: Seq<Seq<char>>, layout: TableLayout) -> CsvRecordView {
    CsvRecordView {
        booking_date: trim(cell(row, layout.booking_date_col as int)),
        debit_account: trim(cell(row, layout.debit_account_col as int)),
        credit_account: trim(cell(row, layout.credit_account_col as int)),
        debit_amount: optional_cell(row, layout.debit_amount_col as int),
        credit_amount: optional_cell(row, layout.credit_amount_col as int),
        doc_number: trim(cell(row, layout.doc_number_col as int)),
        operation_type: trim(cell(row, layout.operation_type_col as int)),
        bank: trim(cell(row, layout.bank_col as int)),
        transaction_purpose: optional_cell(row, layout.transaction_purpose_col as int),
    }
}

fn required(row: &[String], col: usize) -> (r: String)
    ensures
        r@ == trim(cell(string_views(row@), col as int)),
{
    string_of(trimmed_cell(row, col).as_slice())
}

fn optional(row: &[String], col: usize) -> (r: Option<String>)
    ensures
        text_of(r) == optional_cell(string_views(row@), col as int),
{
    if col < row.len() {
        Some(string_of(trimmed_cell(row, col).as_slice()))
    } else {
        None
    }
}

/// The transaction that a record stands for, seen from our account. There
/// is no value date; the description is the purpose of the payment.
pub open spec fn csv_transaction_of(rec: CsvRecordView, our_account: Seq<char>) -> Result<
    TransactionView,
    ErrorKind,
> {
    match chrono_date(rec.booking_date, "%d.%m.%Y"@) {
        None => Err(ErrorKind::Date),
        Some(booking_date) => match amount_and_direction_of(rec.debit_amount, rec.credit_amount) {
            Err(k) => Err(k),
            Ok((amount, direction)) => {
                let party = counterparty_account_of(
                    rec.debit_account,
                    rec.credit_account,
                    our_account,
                );
                Ok(
                    TransactionView {
                        booking_date,
                        value_date: None,
                        amount,
                        direction,
                        description: match rec.transaction_purpose {
                            Some(p) => p,
                            None => Seq::empty(),
                        },
                        counterparty: party.0,
                        counterparty_name: party.1,
                    },
                )
            },
        },
    }
}

fn as_str_opt(o: &Option<String>) -> (r: Option<&str>)
    ensures
        str_text(r) == text_of(*o),
{
    match o {
        Some(s) => Some(s.as_str()),
        None => None,
    }
}

impl CsvRecord {
    /// Unpacks a row of the table. The row must have the columns that every
    /// record has to fill.
    pub fn from_string_record(row: &[String], layout: &TableLayout) -> (r: Self)
        requires
            layout.fits(row@.len()),
        ensures
            r@ == record_of(string_views(row@), *layout),
    {
        CsvRecord {
            booking_date: required(row, layout.booking_date_col),
            debit_account: required(row, layout.debit_account_col),
            credit_account: required(row, layout.credit_account_col),
            debit_amount: optional(row, layout.debit_amount_col),
            credit_amount: optional(row, layout.credit_amount_col),
            doc_number: required(row, layout.doc_number_col),
            operation_type: required(row, layout.operation_type_col),
            bank: required(row, layout.bank_col),
            transaction_purpose: optional(row, layout.transaction_purpose_col),
        }
    }

    /// The transaction that the record stands for, seen from `our_account`.
    pub fn into_transaction(self, our_account: &str) -> (r: Result<Transaction, ParseError>)
        ensures
            transaction_outcome(r, csv_transaction_of(self@, our_account@)),
    {
        let booking_date = match Date::parse_from_str(self.booking_date.as_str(), "%d.%m.%Y") {
            Ok(d) => d,
            Err(words) => {
                return Err(ParseError::Date(words));
            },
        };
        let (amount, direction) = match parse_amount_and_direction(
            as_str_opt(&self.debit_amount),
            as_str_opt(&self.credit_amount),
        ) {
            Ok(pair) => pair,
            Err(e) => {
                return Err(e);
            },
        };
        let (counterparty, counterparty_name) = extract_counterparty_account(
            self.debit_account.as_str(),
            self.credit_account.as_str(),
            our_account,
        );
        let description = match self.transaction_purpose {
            Some(p) => p,
            None => String::new(),
        };
        Ok(
            Transaction::new(
                booking_date,
                None,
                amount,
                direction,
                description,
                counterparty,
                counterparty_name,
            ),
        )
    }
}

/// The two balances of the footer.
#[derive(Debug, Default, Clone, Copy, PartialEq, Eq)]
pub struct CsvFooter {
    pub opening_balance: Balance,
    pub closing_balance: Balance,
}

/// The balances that the first `n` footer rows spell: a row whose second
/// cell is one of the two balance labels sets that balance, and the last
/// such row counts.
pub open spec fn footer_scan(rows: Seq<Seq<Seq<char>>>, n: int) -> Result<
    (Option<Balance>, Option<Balance>),
    ErrorKind,
>
    decreases n,
{
    if n <= 0 {
        Ok((None, None))
    } else {
        match footer_scan(rows, n - 1) {
            Err(k) => Err(k),
            Ok((opening, closing)) => {
                let title = trim(cell(rows[n - 1], 1));
                if title == "Входящий остаток"@ {
                    match footer_balance_of(rows[n - 1]) {
                        Ok(b) => Ok((Some(b), closing)),
                        Err(k) => Err(k),
                    }
                } else if title == "Исходящий остаток"@ {
                    match footer_balance_of(rows[n - 1]) {
                        Ok(b) => Ok((opening, Some(b))),
                        Err(k) => Err(k),
                    }
                } else {
                    Ok((opening, closing))
                }
            },
        }
    }
}

/// The footer that the footer rows spell: both balances must be there.
pub open spec fn footer_of(rows: Seq<Seq<Seq<char>>>) -> Result<CsvFooter, ErrorKind> {
    match footer_scan(rows, rows.len() as int) {
        Err(k) => Err(k),
        Ok((Some(opening_balance), Some(closing_balance))) => Ok(
            CsvFooter { opening_balance, closing_balance },
        ),
        Ok(_) => Err(ErrorKind::Header),
    }
}

/// Once a prefix of the footer rows fails, every longer prefix fails alike.
pub proof fn lemma_footer_scan_fails(rows: Seq<Seq<Seq<char>>>, n: int, m: int)
    requires
        0 <= n <= m,
        footer_scan(rows, n) is Err,
    ensures
        footer_scan(rows, m) == footer_scan(rows, n),
    decreases m - n,
{
    if n < m {
        lemma_footer_scan_fails(rows, n, m - 1);
    }
}

impl CsvFooter {
    /// Reads the balances of the footer block.
    #[verifier::loop_isolation(false)]
    pub fn from_string_records(rows: &[Vec<String>]) -> (r: Result<Self, ParseError>)
        ensures
            crate::error::same_outcome(r, footer_of(rows_view(rows@))),
    {
        let mut opening: Option<Balance> = None;
        let mut closing: Option<Balance> = None;
        let ghost all = rows_view(rows@);
        let mut i: usize = 0;
        while i < rows.len()
            invariant
                i <= rows.len(),
                footer_scan(all, i as int) == Ok::<(Option<Balance>, Option<Balance>), ErrorKind>(
                    (opening, closing),
                ),
            decreases rows.len() - i,
        {
            assert(all[i as int] == string_views(rows@[i as int]@));
            let title = trimmed_cell(rows[i].as_slice(), 1);
            if equals_str(title.as_slice(), "Входящий остаток") {
                match parse_footer_balance(rows[i].as_slice()) {
                    Ok(b) => {
                        opening = Some(b);
                    },
                    Err(e) => {
                        proof {
                            assert(footer_scan(all, i + 1) is Err);
                            lemma_footer_scan_fails(all, i + 1, rows.len() as int);
                        }
                        return Err(e);
                    },
                }
            } else if equals_str(title.as_slice(), "Исходящий остаток") {
                match parse_footer_balance(rows[i].as_slice()) {
                    Ok(b) => {
                        closing = Some(b);
                    },
                    Err(e) => {
                        proof {
                            assert(footer_scan(all, i + 1) is Err);
                            lemma_footer_scan_fails(all, i + 1, rows.len() as int);
                        }
                        return Err(e);
                    },
                }
            }
            i += 1;
        }
        let opening_balance = match opening {
            Some(b) => b,
            None => {
                return Err(
                    ParseError::Header("opening balance not found in footer".to_string()),
                );
            },
        };
        let closing_balance = match closing {
            Some(b) => b,
            None => {
                return Err(
                    ParseError::Header("closing balance not found in footer".to_string()),
                );
            },
        };
        Ok(CsvFooter { opening_balance, closing_balance })
    }
}

/// An export, split into its three blocks.
#[derive(Debug)]
pub struct CsvData {
    pub header: CsvHeader,
    pub records: Vec<CsvRecord>,
    pub footer: CsvFooter,
}

/// What a `CsvData` stands for.
pub struct CsvDataView {
    pub header: CsvHeaderView,
    pub records: Seq<CsvRecordView>,
    pub footer: CsvFooter,
}

/// What a list of records stands for.
pub open spec fn record_views(v: Seq<CsvRecord>) -> Seq<CsvRecordView> {
    Seq::new(v.len(), |i: int| v[i]@)
}

impl View for CsvData {
    type V = CsvDataView;

    open spec fn view(&self) -> CsvDataView {
        CsvDataView {
            header: self.header@,
            records: record_views(self.records@),
            footer: self.footer,
        }
    }
}

/// The index of the first row at or after `from` of which some cell holds
/// the label, or the number of rows.
pub open spec fn first_row_holding(rows: Seq<Seq<Seq<char>>>, label: Seq<char>, from: int) -> int
    decreases rows.len() - from,
{
    if from < 0 || from >= rows.len() || first_holding(rows[from], label, 0) < rows[from].len() {
        from
    } else {
        first_row_holding(rows, label, from + 1)
    }
}

/// The index of the first row at or after `from` that belongs to the
/// footer, or the number of rows.
pub open spec fn first_footer_row(rows: Seq<Seq<Seq<char>>>, from: int) -> int
    decreases rows.len() - from,
{
    if from < 0 || from >= rows.len() || is_footer(rows[from]) {
        from
    } else {
        first_footer_row(rows, from + 1)
    }
}

/// The index of the first cell at or after `from` that is not blank, or the
/// length of the row.
pub open spec fn first_filled(row: Seq<Seq<char>>, from: int) -> int
    decreases row.len() - from,
{
    if from < 0 || from >= row.len() || !is_blank(row[from]) {
        from
    } else {
        first_filled(row, from + 1)
    }
}

/// The records of the rows from `lo` up to `n`: blank rows are skipped; a
/// row that lacks a column that every record must fill is malformed.
pub open spec fn records_of(rows: Seq<Seq<Seq<char>>>, layout: TableLayout, lo: int, n: int)
    -> Result<Seq<CsvRecordView>, ErrorKind>
    decreases n - lo,
{
    if n <= lo {
        Ok(Seq::empty())
    } else {
        match records_of(rows, layout, lo, n - 1) {
            Err(k) => Err(k),
            Ok(done) => {
                let row = rows[n - 1];
                if first_filled(row, 0) >= row.len() {
                    Ok(done)
                } else if !layout.fits(row.len()) {
                    Err(ErrorKind::Header)
                } else {
                    Ok(done.push(record_of(row, layout)))
                }
            },
        }
    }
}

/// Once a prefix of the rows fails, every longer prefix fails alike.
pub proof fn lemma_records_fail(
    rows: Seq<Seq<Seq<char>>>,
    layout: TableLayout,
    lo: int,
    n: int,
    m: int,
)
    requires
        lo <= n <= m,
        records_of(rows, layout, lo, n) is Err,
    ensures
        records_of(rows, layout, lo, m) == records_of(rows, layout, lo, n),
    decreases m - n,
{
    if n < m {
        lemma_records_fail(rows, layout, lo, n, m - 1);
    }
}

/// The export that a list of rows spells.
///
/// The table begins at the first row of which a cell holds the label of the
/// booking date; that row and the next are its header. The rows before it
/// are the header block. The footer begins at the first row after the table
/// header that holds a footer marker, and runs to the end; the rows between
/// are the records. A missing table header, second header row or footer is
/// malformed.
pub open spec fn data_of(rows: Seq<Seq<Seq<char>>>) -> Result<CsvDataView, ErrorKind> {
    let h = first_row_holding(rows, "Дата проводки"@, 0);
    let f = first_footer_row(rows, h + 2);
    if !(0 <= h < rows.len()) || h + 1 >= rows.len() || f >= rows.len() {
        Err(ErrorKind::Header)
    } else {
        match header_of(rows.take(h)) {
            Err(k) => Err(k),
            Ok(header) => match layout_of(rows[h], rows[h + 1]) {
                Err(k) => Err(k),
                Ok(layout) => match records_of(rows, layout, h + 2, f) {
                    Err(k) => Err(k),
                    Ok(records) => match footer_of(rows.skip(f)) {
                        Err(k) => Err(k),
                        Ok(footer) => Ok(CsvDataView { header, records, footer }),
                    },
                },
            },
        }
    }
}

/// What a result holding an export stands for.
pub open spec fn data_outcome(r: Result<CsvData, ParseError>, expected: Result<
    CsvDataView,
    ErrorKind,
>) -> bool {
    match r {
        Ok(d) => expected == Ok::<CsvDataView, ErrorKind>(d@),
        Err(e) => expected == Err::<CsvDataView, ErrorKind>(e.kind()),
    }
}

fn row_is_blank(row: &[String]) -> (r: bool)
    ensures
        r == (first_filled(string_views(row@), 0) >= row@.len()),
{
    let ghost cells = string_views(row@);
    let mut i: usize = 0;
    while i < row.len()
        invariant
            i <= row.len(),
            cells == string_views(row@),
            first_filled(cells, 0) == first_filled(cells, i as int),
        decreases row.len() - i,
    {
        assert(cells[i as int] == row@[i as int]@);
        let chars = chars_of(row[i].as_str());
        if !blank(chars.as_slice()) {
            return false;
        }
        i += 1;
    }
    true
}

/// The export that the csv crate's records of an input spell; where the
/// crate refuses the input, the error is its own.
pub open spec fn parsed_data_of(data: Seq<u8>) -> Result<CsvDataView, ErrorKind> {
    match csv_rows(data) {
        None => Err(ErrorKind::Csv),
        Some(rows) => data_of(rows),
    }
}

impl CsvData {
    /// Splits the rows of an export into header, records and footer.
    #[verifier::loop_isolation(false)]
    pub fn from_rows(rows: &[Vec<String>]) -> (r: Result<Self, ParseError>)
        ensures
            data_outcome(r, data_of(rows_view(rows@))),
    {
        let ghost all = rows_view(rows@);
        let mut h: usize = 0;
        while h < rows.len()
            invariant
                h <= rows.len(),
                first_row_holding(all, "Дата проводки"@, 0) == first_row_holding(
                    all,
                    "Дата проводки"@,
                    h as int,
                ),
            decreases rows.len() - h,
        {
            assert(all[h as int] == string_views(rows@[h as int]@));
            if row_holds(rows[h].as_slice(), "Дата проводки").is_some() {
                break ;
            }
            h += 1;
        }
        if h >= rows.len() {
            return Err(ParseError::Header("table headers row not found".to_string()));
        }
        assert(all[h as int] == string_views(rows@[h as int]@));
        assert(first_row_holding(all, "Дата проводки"@, 0) == h);
        if rows.len() - h < 2 {
            return Err(
                ParseError::Header("unexpected EOF: second header row missing".to_string()),
            );
        }
        let mut f: usize = h + 2;
        while f < rows.len()
            invariant
                h + 2 <= f <= rows.len(),
                first_footer_row(all, h + 2) == first_footer_row(all, f as int),
            decreases rows.len() - f,
        {
            assert(all[f as int] == string_views(rows@[f as int]@));
            if is_footer_row(rows[f].as_slice()) {
                break ;
            }
            f += 1;
        }
        if f >= rows.len() {
            return Err(ParseError::Header("footer rows not found".to_string()));
        }
        assert(all[f as int] == string_views(rows@[f as int]@));
        assert(first_footer_row(all, h + 2) == f);
        let header_rows = vstd::slice::slice_subrange(rows, 0, h);
        assert(rows_view(header_rows@) =~= all.take(h as int));
        let header = match CsvHeader::from_string_records(header_rows) {
            Ok(v) => v,
            Err(e) => {
                return Err(e);
            },
        };
        assert(all[h + 1] == string_views(rows@[h + 1]@));
        let layout = match TableLayout::from_string_records(
            rows[h].as_slice(),
            rows[h + 1].as_slice(),
        ) {
            Ok(v) => v,
            Err(e) => {
                return Err(e);
            },
        };
        let mut records: Vec<CsvRecord> = Vec::new();
        let mut i: usize = h + 2;
        assert(record_views(records@) =~= Seq::<CsvRecordView>::empty());
        while i < f
            invariant
                h + 2 <= i <= f,
                records_of(all, layout, h + 2, i as int) == Ok::<Seq<CsvRecordView>, ErrorKind>(
                    record_views(records@),
                ),
            decreases f - i,
        {
            assert(all[i as int] == string_views(rows@[i as int]@));
            let row = rows[i].as_slice();
            if !row_is_blank(row) {
                if !layout.covers(row.len()) {
                    proof {
                        assert(records_of(all, layout, h + 2, i + 1) is Err);
                        lemma_records_fail(all, layout, h + 2, i + 1, f as int);
                    }
                    return Err(ParseError::Header("row does not match layout".to_string()));
                }
                let rec = CsvRecord::from_string_record(row, &layout);
                let ghost before = records@;
                records.push(rec);
                assert(record_views(records@) =~= record_views(before).push(rec@));
            }
            i += 1;
        }
        let footer_rows = vstd::slice::slice_subrange(rows, f, rows.len());
        assert(rows_view(footer_rows@) =~= all.skip(f as int));
        let footer = match CsvFooter::from_string_records(footer_rows) {
            Ok(v) => v,
            Err(e) => {
                return Err(e);
            },
        };
        Ok(CsvData { header, records, footer })
    }

    /// Reads an export from its bytes: the csv crate splits them into
    /// records without a header row, and the records are split into blocks.
    pub fn parse(data: &[u8]) -> (r: Result<Self, ParseError>)
        ensures
            data_outcome(r, parsed_data_of(data@)),
    {
        let rows = match read_records(data) {
            Ok(rows) => rows,
            Err(e) => {
                return Err(ParseError::Csv(e));
            },
        };
        CsvData::from_rows(rows.as_slice())
    }
}

/// `s` without the occurrences of `prefix` that it begins with.
pub open spec fn strip_prefix_all(s: Seq<char>, prefix: Seq<char>) -> Seq<char>
    decreases s.len(),
{
    if prefix.len() > 0 && starts_with(s, prefix) {
        strip_prefix_all(s.skip(prefix.len() as int), prefix)
    } else {
        s
    }
}

fn without_prefixes<'a>(s: &'a [char], prefix: &[char]) -> (r: &'a [char])
    ensures
        r@ == strip_prefix_all(s@, prefix@),
{
    let mut off: usize = 0;
    if prefix.len() == 0 {
        return s;
    }
    assert(s@.skip(0) =~= s@);
    loop
        invariant
            off <= s.len(),
            prefix.len() > 0,
            strip_prefix_all(s@, prefix@) == strip_prefix_all(s@.skip(off as int), prefix@),
        decreases s.len() - off,
    {
        let rest = vstd::slice::slice_subrange(s, off, s.len());
        if !has_prefix(rest, prefix) {
            return rest;
        }
        assert(s@.skip(off as int).skip(prefix.len() as int) =~= s@.skip(off + prefix.len()));
        off += prefix.len();
    }
}

/// The transactions that the first `n` records stand for, or the error of
/// the first record among them that stands for none.
pub open spec fn csv_transactions_of(records: Seq<CsvRecordView>, our_account: Seq<char>, n: int)
    -> Result<Seq<TransactionView>, ErrorKind>
    decreases n,
{
    if n <= 0 {
        Ok(Seq::empty())
    } else {
        match csv_transactions_of(records, our_account, n - 1) {
            Err(k) => Err(k),
            Ok(done) => match csv_transaction_of(records[n - 1], our_account) {
                Err(k) => Err(k),
                Ok(t) => Ok(done.push(t)),
            },
        }
    }
}

/// Once a prefix of the records fails, every longer prefix fails alike.
pub proof fn lemma_csv_transactions_fail(
    records: Seq<CsvRecordView>,
    our_account: Seq<char>,
    n: int,
    m: int,
)
    requires
        0 <= n <= m,
        csv_transactions_of(records, our_account, n) is Err,
    ensures
        csv_transactions_of(records, our_account, m) == csv_transactions_of(
            records,
            our_account,
            n,
        ),
    decreases m - n,
{
    if n < m {
        lemma_csv_transactions_fail(records, our_account, n, m - 1);
    }
}

/// The statement that an export stands for.
///
/// Account and its name come from the header, the balances from the
/// footer. The period is read from the two period cells of the header,
/// without the words that introduce them. A period that ends before it
/// begins is a fault of the header.
pub open spec fn csv_statement_of(d: CsvDataView) -> Result<StatementView, ErrorKind> {
    let from = rus_date_of(trim(strip_prefix_all(d.header.period_from, "за период с"@)));
    let until = rus_date_of(trim(strip_prefix_all(d.header.period_until, "по"@)));
    match (from, until) {
        (Err(k), _) => Err(k),
        (_, Err(k)) => Err(k),
        (Ok(period_from), Ok(period_until)) => match csv_transactions_of(
            d.records,
            d.header.client_account,
            d.records.len() as int,
        ) {
            Err(k) => Err(k),
            Ok(transactions) => ordered_or(
                StatementView {
                    account_id: d.header.client_account,
                    account_name: Some(d.header.client_name),
                    currency: currency_of_text(d.header.currency),
                    opening_balance: Some(d.footer.opening_balance),
                    closing_balance: Some(d.footer.closing_balance),
                    transactions,
                    period_from,
                    period_until,
                },
                ErrorKind::Header,
            ),
        },
    }
}

fn period_date(cell: &str, intro: &str) -> (r: Result<Date, ParseError>)
    ensures
        crate::model::date_outcome(r, rus_date_of(trim(strip_prefix_all(cell@, intro@)))),
{
    let chars = chars_of(cell);
    let words = chars_of(intro);
    let rest = trim_of(without_prefixes(chars.as_slice(), words.as_slice()));
    parse_rus_date(string_of(rest).as_str())
}

impl Statement {
    /// The statement that a CSV export stands for.
    #[verifier::loop_isolation(false)]
    pub fn from_csv(data: CsvData) -> (r: Result<Statement, ParseError>)
        ensures
            statement_outcome(r, csv_statement_of(data@)),
            r matches Ok(s) ==> s@.period_ordered(),
    {
        let currency = parse_currency(data.header.currency.as_str());
        let period_from = match period_date(data.header.period_from.as_str(), "за период с") {
            Ok(v) => v,
            Err(e) => {
                return Err(e);
            },
        };
        let period_until = match period_date(data.header.period_until.as_str(), "по") {
            Ok(v) => v,
            Err(e) => {
                return Err(e);
            },
        };
        let account_id = data.header.client_account;
        let mut transactions: Vec<Transaction> = Vec::new();
        let client_name = data.header.client_name;
        let footer = data.footer;
        let ghost all = record_views(data.records@);
        assert(transaction_views(transactions@) =~= Seq::<TransactionView>::empty());
        for rec in it: data.records
            invariant
                all == record_views(it.seq()),
                csv_transactions_of(all, account_id@, it.index() as int) == Ok::<
                    Seq<TransactionView>,
                    ErrorKind,
                >(transaction_views(transactions@)),
        {
            let ghost done = it.index() as int;
            assert(rec@ == all[done]);
            let tx = match rec.into_transaction(account_id.as_str()) {
                Ok(t) => t,
                Err(e) => {
                    proof {
                        assert(csv_transactions_of(all, account_id@, done + 1) is Err);
                        lemma_csv_transactions_fail(all, account_id@, done + 1, all.len() as int);
                    }
                    return Err(e);
                },
            };
            let ghost before = transactions@;
            transactions.push(tx);
            assert(transaction_views(transactions@) =~= transaction_views(before).push(tx@));
        }
        let statement = Statement::new(
            account_id,
            Some(client_name),
            currency,
            Some(footer.opening_balance),
            Some(footer.closing_balance),
            transactions,
            period_from,
            period_until,
        );
        if !statement.has_ordered_period() {
            return Err(
                ParseError::Header("the statement period ends before it begins".to_string()),
            );
        }
        Ok(statement)
    }
}

impl TryFrom<CsvData> for Statement {
    type Error = ParseError;

    /// The statement that a CSV export stands for.
    fn try_from(data: CsvData) -> (r: Result<Self, ParseError>)
        ensures
            statement_outcome(r, csv_statement_of(data@)),
            r matches Ok(s) ==> s@.period_ordered(),
    {
        Statement::from_csv(data)
    }
}

/// The conversion is stated by the `ensures` of `try_from`, over kinds of
/// error; no spec function gives its result to the letter.
impl vstd::std_specs::convert::TryFromSpecImpl<CsvData> for Statement {
    open spec fn obeys_try_from_spec() -> bool {
        false
    }

    open spec fn try_from_spec(v: CsvData) -> Result<Self, ParseError> {
        arbitrary()
    }
}

} // verus!
