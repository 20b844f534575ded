//! The canonical statement: what every format decodes to and encodes from.

use crate::date::{iso_text, ymd_le, Date};
use crate::number::{decimal, push_decimal};
use crate::text::{push_chars, push_str, string_of};
use crate::error::{ErrorKind, ParseError};
use vstd::prelude::*;

verus! {

/// A balance in minor units: positive for credit, negative for debit.
pub type Balance = i128;

/// The currency of a statement.
#[derive(Debug, Clone, PartialEq, Eq)]
pub enum Currency {
    /// Russian rouble.
    RUB,
    /// Euro.
    EUR,
    /// US dollar.
    USD,
    /// Chinese yuan.
    CNY,
    /// Any other currency, under the name that the source gave it.
    Other(String),
}

/// What a `Currency` stands for.
pub enum CurrencyView {
    RUB,
    EUR,
    USD,
    CNY,
    Other(Seq<char>),
}

impl View for Currency {
    type V = CurrencyView;

    open spec fn view(&self) -> CurrencyView {
        match self {
            Currency::RUB => CurrencyView::RUB,
            Currency::EUR => CurrencyView::EUR,
            Currency::USD => CurrencyView::USD,
            Currency::CNY => CurrencyView::CNY,
            Currency::Other(s) => CurrencyView::Other(s@),
        }
    }
}

/// Which way money moves, seen from the statement's account.
#[derive(Debug, Clone, Copy, PartialEq, Eq, Structural)]
pub enum Direction {
    /// Money leaves the account.
    Debit,
    /// Money reaches the account.
    Credit,
}

impl Direction {
    /// The name of the direction.
    pub open spec fn name(self) -> Seq<char> {
        match self {
            Direction::Credit => "Credit"@,
            Direction::Debit => "Debit"@,
        }
    }

    /// The name of the direction.
    pub fn label(&self) -> (r: &'static str)
        ensures
            r@ == self.name(),
    {
        match self {
            Direction::Credit => "Credit",
            Direction::Debit => "Debit",
        }
    }

    /// The balance of the given magnitude in this direction.
    pub open spec fn signed(self, magnitude: int) -> int {
        match self {
            Direction::Credit => magnitude,
            Direction::Debit => -magnitude,
        }
    }
}

/// The text of an optional string.
pub open spec fn text_of(o: Option<String>) -> Option<Seq<char>> {
    match o {
        Some(s) => Some(s@),
        None => None,
    }
}

/// The text of an optional string, empty where there is none.
pub open spec fn text_or_empty(o: Option<String>) -> Seq<char> {
    match o {
        Some(s) => s@,
        None => Seq::empty(),
    }
}

/// The numbers of an optional date.
pub open spec fn ymd_of(o: Option<Date>) -> Option<(int, int, int)> {
    match o {
        Some(d) => Some(d@),
        None => None,
    }
}

/// One movement on the account.
#[derive(Debug, PartialEq, Eq)]
pub struct Transaction {
    /// The day on which the movement was booked.
    pub booking_date: Date,
    /// The day from which the amount counts, where the source gives one.
    pub value_date: Option<Date>,
    /// The magnitude in minor units; the sign lies in `direction`.
    pub amount: u64,
    /// Whether the amount left or reached the account.
    pub direction: Direction,
    /// Free text.
    pub description: String,
    /// The other party's account identifier.
    pub counterparty: Option<String>,
    /// The other party's name.
    pub counterparty_name: Option<String>,
}

/// What a `Transaction` stands for.
pub struct TransactionView {
    pub booking_date: (int, int, int),
    pub value_date: Option<(int, int, int)>,
    pub amount: u64,
    pub direction: Direction,
    pub description: Seq<char>,
    pub counterparty: Option<Seq<char>>,
    pub counterparty_name: Option<Seq<char>>,
}

impl View for Transaction {
    type V = TransactionView;

    open spec fn view(&self) -> TransactionView {
        TransactionView {
            booking_date: self.booking_date@,
            value_date: ymd_of(self.value_date),
            amount: self.amount,
            direction: self.direction,
            description: self.description@,
            counterparty: text_of(self.counterparty),
            counterparty_name: text_of(self.counterparty_name),
        }
    }
}

impl TransactionView {
    /// The amount with its sign: positive for credit, negative for debit.
    pub open spec fn signed_amount(self) -> int {
        self.direction.signed(self.amount as int)
    }
}

/// `s` followed by spaces up to a width of `width` characters.
pub open spec fn padded_right(s: Seq<char>, width: nat) -> Seq<char> {
    if s.len() >= width {
        s
    } else {
        s + Seq::new((width - s.len()) as nat, |i: int| ' ')
    }
}

/// `s` preceded by spaces up to a width of `width` characters.
pub open spec fn padded_left(s: Seq<char>, width: nat) -> Seq<char> {
    if s.len() >= width {
        s
    } else {
        Seq::new((width - s.len()) as nat, |i: int| ' ') + s
    }
}

impl Transaction {
    /// Makes a transaction of its parts.
    pub fn new(
        booking_date: Date,
        value_date: Option<Date>,
        amount: u64,
        direction: Direction,
        description: String,
        counterparty: Option<String>,
        counterparty_name: Option<String>,
    ) -> (r: Self)
        ensures
            r == (Transaction {
                booking_date,
                value_date,
                amount,
                direction,
                description,
                counterparty,
                counterparty_name,
            }),
    {
        Transaction {
            booking_date,
            value_date,
            amount,
            direction,
            description,
            counterparty,
            counterparty_name,
        }
    }

    /// One line for a listing: booking date, value date in a column of ten,
    /// direction, amount right-aligned in a column of fifteen, counterparty,
    /// counterparty name and description, with one space between them.
    pub open spec fn line(self) -> Seq<char> {
        let space = seq![' '];
        let value_date = match self.value_date {
            Some(d) => iso_text(d@),
            None => Seq::empty(),
        };
        iso_text(self.booking_date@) + space + padded_right(value_date, 10) + space
            + self.direction.name() + space + padded_left(decimal(self.amount as nat), 15)
            + space + text_or_empty(self.counterparty) + space + text_or_empty(
            self.counterparty_name,
        ) + space + self.description@
    }

    /// The transaction as one line of a listing.
    pub fn to_text(&self) -> (r: String)
        ensures
            r@ == self.line(),
    {
        let mut out: Vec<char> = Vec::new();
        let booking = self.booking_date.format_iso();
        push_str(&mut out, booking.as_str());
        out.push(' ');
        let mut value: Vec<char> = Vec::new();
        if let Some(d) = self.value_date {
            let text = d.format_iso();
            push_str(&mut value, text.as_str());
        }
        pad_right(&mut value, 10);
        push_chars(&mut out, value.as_slice());
        out.push(' ');
        push_str(&mut out, self.direction.label());
        out.push(' ');
        let mut digits: Vec<char> = Vec::new();
        push_decimal(&mut digits, self.amount as u128);
        let amount = pad_left(digits.as_slice(), 15);
        push_chars(&mut out, amount.as_slice());
        out.push(' ');
        if let Some(s) = &self.counterparty {
            push_str(&mut out, s.as_str());
        }
        out.push(' ');
        if let Some(s) = &self.counterparty_name {
            push_str(&mut out, s.as_str());
        }
        out.push(' ');
        push_str(&mut out, self.description.as_str());
        assert(out@ =~= self.line()) by {
            assert(digits@ =~= decimal(self.amount as nat));
        }
        string_of(out.as_slice())
    }
}

/// Appends spaces until the buffer is `width` characters long.
pub fn pad_right(out: &mut Vec<char>, width: usize)
    ensures
        final(out)@ == padded_right(old(out)@, width as nat),
{
    let ghost start = out@;
    if out.len() >= width {
        return ;
    }
    let missing = width - out.len();
    let mut i: usize = 0;
    while i < missing
        invariant
            i <= missing,
            start.len() + missing == width,
            out@ =~= start + Seq::new(i as nat, |k: int| ' '),
        decreases missing - i,
    {
        out.push(' ');
        i += 1;
    }
}

/// `s` after as many spaces as it lacks to `width` characters.
pub fn pad_left(s: &[char], width: usize) -> (r: Vec<char>)
    ensures
        r@ == padded_left(s@, width as nat),
{
    let mut r: Vec<char> = Vec::new();
    if s.len() < width {
        let missing = width - s.len();
        let mut i: usize = 0;
        while i < missing
            invariant
                i <= missing,
                r@ =~= Seq::new(i as nat, |k: int| ' '),
            decreases missing - i,
        {
            r.push(' ');
            i += 1;
        }
    }
    push_chars(&mut r, s);
    assert(r@ =~= padded_left(s@, width as nat));
    r
}

/// One bank statement.
#[derive(Debug, PartialEq, Eq)]
pub struct Statement {
    /// The account, as the source format names it.
    pub account_id: String,
    /// The name of the account or of its holder.
    pub account_name: Option<String>,
    pub currency: Currency,
    pub opening_balance: Option<Balance>,
    pub closing_balance: Option<Balance>,
    /// The movements, in the order of the source document.
    pub transactions: Vec<Transaction>,
    /// The first day of the reporting period.
    pub period_from: Date,
    /// The last day of the reporting period.
    pub period_until: Date,
}

/// What a `Statement` stands for.
pub struct StatementView {
    pub account_id: Seq<char>,
    pub account_name: Option<Seq<char>>,
    pub currency: CurrencyView,
    pub opening_balance: Option<Balance>,
    pub closing_balance: Option<Balance>,
    pub transactions: Seq<TransactionView>,
    pub period_from: (int, int, int),
    pub period_until: (int, int, int),
}

/// What a list of transactions stands for.
pub open spec fn transaction_views(v: Seq<Transaction>) -> Seq<TransactionView> {
    Seq::new(v.len(), |i: int| v[i]@)
}

impl View for Statement {
    type V = StatementView;

    open spec fn view(&self) -> StatementView {
        StatementView {
            account_id: self.account_id@,
            account_name: text_of(self.account_name),
            currency: self.currency@,
            opening_balance: self.opening_balance,
            closing_balance: self.closing_balance,
            transactions: transaction_views(self.transactions@),
            period_from: self.period_from@,
            period_until: self.period_until@,
        }
    }
}

impl StatementView {
    /// Whether the reporting period does not end before it begins.
    pub open spec fn period_ordered(self) -> bool {
        ymd_le(self.period_from, self.period_until)
    }
}

/// A statement, unless its period ends before it begins: such a statement
/// is refused, with the given kind of error.
pub open spec fn ordered_or(s: StatementView, kind: ErrorKind) -> Result<StatementView, ErrorKind> {
    if s.period_ordered() {
        Ok(s)
    } else {
        Err(kind)
    }
}

impl Statement {
    /// Makes a statement of its parts.
    pub fn new(
        account_id: String,
        account_name: Option<String>,
        currency: Currency,
        opening_balance: Option<Balance>,
        closing_balance: Option<Balance>,
        transactions: Vec<Transaction>,
        period_from: Date,
        period_until: Date,
    ) -> (r: Self)
        ensures
            r == (Statement {
                account_id,
                account_name,
                currency,
                opening_balance,
                closing_balance,
                transactions,
                period_from,
                period_until,
            }),
    {
        Statement {
            account_id,
            account_name,
            currency,
            opening_balance,
            closing_balance,
            transactions,
            period_from,
            period_until,
        }
    }

    /// Whether the reporting period does not end before it begins.
    pub fn has_ordered_period(&self) -> (r: bool)
        ensures
            r == self@.period_ordered(),
    {
        self.period_from.le(&self.period_until)
    }
}

/// The latest booking date among the first `n` transactions, or `floor`
/// where there is none.
pub open spec fn latest_booking(txs: Seq<TransactionView>, n: int, floor: (int, int, int)) -> (
    int,
    int,
    int,
)
    decreases n,
{
    if n <= 0 {
        floor
    } else if n == 1 {
        txs[0].booking_date
    } else {
        let before = latest_booking(txs, n - 1, floor);
        if ymd_le(before, txs[n - 1].booking_date) {
            txs[n - 1].booking_date
        } else {
            before
        }
    }
}

/// The latest booking date of a prefix does not change when transactions
/// are added behind it.
pub proof fn lemma_latest_prefix(
    a: Seq<TransactionView>,
    b: Seq<TransactionView>,
    n: int,
    floor: (int, int, int),
)
    requires
        0 <= n <= a.len() <= b.len(),
        forall|i: int| 0 <= i < n ==> a[i] == b[i],
    ensures
        latest_booking(a, n, floor) == latest_booking(b, n, floor),
    decreases n,
{
    if n > 1 {
        lemma_latest_prefix(a, b, n - 1, floor);
    }
}

/// The text of an optional string slice.
pub open spec fn str_text(o: Option<&str>) -> Option<Seq<char>> {
    match o {
        Some(s) => Some(s@),
        None => None,
    }
}

/// What a result holding a date stands for.
pub open spec fn date_outcome(r: Result<Date, ParseError>, expected: Result<
    (int, int, int),
    ErrorKind,
>) -> bool {
    match r {
        Ok(d) => expected == Ok::<(int, int, int), ErrorKind>(d@),
        Err(e) => expected == Err::<(int, int, int), ErrorKind>(e.kind()),
    }
}

/// What a converted transaction stands for.
pub open spec fn transaction_outcome(r: Result<Transaction, ParseError>, expected: Result<
    TransactionView,
    ErrorKind,
>) -> bool {
    match r {
        Ok(t) => expected == Ok::<TransactionView, ErrorKind>(t@),
        Err(e) => expected == Err::<TransactionView, ErrorKind>(e.kind()),
    }
}

/// What a converted statement stands for.
pub open spec fn statement_outcome(r: Result<Statement, ParseError>, expected: Result<
    StatementView,
    ErrorKind,
>) -> bool {
    match r {
        Ok(s) => expected == Ok::<StatementView, ErrorKind>(s@),
        Err(e) => expected == Err::<StatementView, ErrorKind>(e.kind()),
    }
}

} // verus!
