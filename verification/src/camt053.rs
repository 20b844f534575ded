//! The ISO 20022 camt.053 statement message, as an element tree.

pub mod models;
pub mod utils;

use crate::camt053::models::{Camt053Document, Camt053Entry, Camt053Statement, CamtTxDtls};
use crate::camt053::utils::{
    balances_of, camt_counterparty_of, camt_date_of, camt_description_of, counterparty_from_tx,
    currency_of, description_from_tx, detect_currency, detect_period, direction_from_indicator,
    extract_balances, indicated, parse_camt_date_to_naive, period_of,
};
use crate::error::{with_detail, ErrorKind, ParseError};
use crate::model::{
    ordered_or, statement_outcome, text_of, transaction_outcome, transaction_views, Statement,
    StatementView, Transaction, TransactionView,
};
use crate::text::{chars_of, replace_char, replaced, string_of};
use crate::utils::{amount_of, parse_amount};
use vstd::prelude::*;

verus! {

/// The first statement of a camt.053 message.
#[derive(Debug, Default)]
pub struct Camt053Data {
    pub statement: Camt053Statement,
}

/// The text of a message with every no-break space turned into a space,
/// which is how the text goes to the XML reader.
pub fn clean_xml(xml: &str) -> (r: String)
    ensures
        r@ == replaced(xml@, '\u{a0}', ' '),
{
    let chars = chars_of(xml);
    let cleaned = replace_char(chars.as_slice(), '\u{a0}', ' ');
    string_of(cleaned.as_slice())
}

impl Camt053Document {
    /// How many statements the message holds.
    pub fn statement_count(&self) -> (n: usize)
        ensures
            n == self.bank_to_customer.statements@.len(),
    {
        self.bank_to_customer.statements.len()
    }
}

impl Camt053Data {
    /// Takes the first statement of a message; the others are dropped. A
    /// message without a statement is malformed.
    pub fn from_document(doc: Camt053Document) -> (r: Result<Self, ParseError>)
        ensures
            match r {
                Ok(data) => doc.bank_to_customer.statements@.len() > 0 && data.statement
                    == doc.bank_to_customer.statements@[0],
                Err(e) => doc.bank_to_customer.statements@.len() == 0 && e.kind()
                    == ErrorKind::BadInput,
            },
    {
        let mut statements = doc.bank_to_customer.statements;
        if statements.len() == 0 {
            return Err(ParseError::BadInput("CAMT file has no <Stmt>".to_string()));
        }
        statements.truncate(1);
        match statements.pop() {
            Some(statement) => Ok(Camt053Data { statement }),
            None => Err(ParseError::BadInput("CAMT file has no <Stmt>".to_string())),
        }
    }

    /// Wraps a statement that was read on its own, without a message
    /// around it.
    pub fn from_statement(statement: Camt053Statement) -> (r: Self)
        ensures
            r.statement == statement,
    {
        Camt053Data { statement }
    }
}

/// The first transaction detail of an entry.
pub open spec fn first_detail(e: Camt053Entry) -> Option<CamtTxDtls> {
    match e.details {
        Some(d) => if d.tx_details@.len() > 0 {
            Some(d.tx_details@[0])
        } else {
            None
        },
        None => None,
    }
}

/// The transaction that an entry stands for. An indicator other than
/// `CRDT` and `DBIT` is an invalid amount; then the amount, the booking date
/// and the value date must each be well-formed, in this order. Counterparty
/// and description come from the first transaction detail.
pub open spec fn camt_transaction_of(e: Camt053Entry) -> Result<TransactionView, ErrorKind> {
    match indicated(e.cdt_dbt_ind@) {
        None => Err(ErrorKind::InvalidAmount),
        Some(direction) => match amount_of(e.amount.value@) {
            Err(k) => Err(k),
            Ok(amount) => match camt_date_of(e.booking_date.date@) {
                Err(k) => Err(k),
                Ok(booking_date) => match camt_date_of(e.value_date.date@) {
                    Err(k) => Err(k),
                    Ok(value_date) => Ok(
                        TransactionView {
                            booking_date,
                            value_date: Some(value_date),
                            amount,
                            direction,
                            description: match first_detail(e) {
                                Some(d) => camt_description_of(d),
                                None => Seq::empty(),
                            },
                            counterparty: match first_detail(e) {
                                Some(d) => camt_counterparty_of(d, direction).0,
                                None => None,
                            },
                            counterparty_name: match first_detail(e) {
                                Some(d) => camt_counterparty_of(d, direction).1,
                                None => None,
                            },
                        },
                    ),
                },
            },
        },
    }
}

impl Transaction {
    /// The transaction that a camt.053 entry stands for.
    pub fn from_camt_entry(entry: &Camt053Entry) -> (r: Result<Transaction, ParseError>)
        ensures
            transaction_outcome(r, camt_transaction_of(*entry)),
    {
        let direction = match direction_from_indicator(entry.cdt_dbt_ind.as_str()) {
            Some(d) => d,
            None => {
                let chars = chars_of(entry.cdt_dbt_ind.as_str());
                return Err(
                    ParseError::InvalidAmount(
                        with_detail("unknown direction (CdtDbtInd): ", chars.as_slice()),
                    ),
                );
            },
        };
        let amount = match parse_amount(entry.amount.value.as_str()) {
            Ok(a) => a,
            Err(e) => {
                return Err(e);
            },
        };
        let booking_date = match parse_camt_date_to_naive(entry.booking_date.date.as_str()) {
            Ok(d) => d,
            Err(e) => {
                return Err(e);
            },
        };
        let value_date = match parse_camt_date_to_naive(entry.value_date.date.as_str()) {
            Ok(d) => d,
            Err(e) => {
                return Err(e);
            },
        };
        let detail = match &entry.details {
            Some(d) => if d.tx_details.len() > 0 {
                Some(&d.tx_details[0])
            } else {
                None
            },
            None => None,
        };
        let (counterparty, counterparty_name, description) = match detail {
            Some(d) => {
                let (id, name) = counterparty_from_tx(d, direction);
                (id, name, description_from_tx(d))
            },
            None => (None, None, String::new()),
        };
        Ok(
            Transaction::new(
                booking_date,
                Some(value_date),
                amount,
                direction,
                description,
                counterparty,
                counterparty_name,
            ),
        )
    }
}

/// The transactions that the first `n` entries stand for, or the error of
/// the first entry among them that stands for none.
pub open spec fn camt_transactions_of(entries: Seq<Camt053Entry>, n: int) -> Result<
    Seq<TransactionView>,
    ErrorKind,
>
    decreases n,
{
    if n <= 0 {
        Ok(Seq::empty())
    } else {
        match camt_transactions_of(entries, n - 1) {
            Err(k) => Err(k),
            Ok(done) => match camt_transaction_of(entries[n - 1]) {
                Err(k) => Err(k),
                Ok(t) => Ok(done.push(t)),
            },
        }
    }
}

/// Once a prefix of the entries fails, every longer prefix fails alike.
pub proof fn lemma_camt_transactions_fail(entries: Seq<Camt053Entry>, n: int, m: int)
    requires
        0 <= n <= m,
        camt_transactions_of(entries, n) is Err,
    ensures
        camt_transactions_of(entries, m) == camt_transactions_of(entries, n),
    decreases m - n,
{
    if n < m {
        lemma_camt_transactions_fail(entries, n, m - 1);
    }
}

/// The statement that a camt.053 statement stands for. The account is its
/// IBAN, or `not provided` where it has none. A statement whose period ends
/// before it begins is refused.
pub open spec fn camt_statement_of(stmt: Camt053Statement) -> Result<StatementView, ErrorKind> {
    match currency_of(stmt) {
        Err(k) => Err(k),
        Ok(currency) => match period_of(stmt) {
            Err(k) => Err(k),
            Ok((period_from, period_until)) => match camt_transactions_of(
                stmt.entries@,
                stmt.entries@.len() as int,
            ) {
                Err(k) => Err(k),
                Ok(transactions) => ordered_or(
                    StatementView {
                        account_id: match stmt.account.id.iban {
                            Some(iban) => iban@,
                            None => "not provided"@,
                        },
                        account_name: text_of(stmt.account.name),
                        currency,
                        opening_balance: balances_of(
                            stmt.balances@,
                            stmt.balances@.len() as int,
                        ).0,
                        closing_balance: balances_of(
                            stmt.balances@,
                            stmt.balances@.len() as int,
                        ).1,
                        transactions,
                        period_from,
                        period_until,
                    },
                    ErrorKind::BadInput,
                ),
            },
        },
    }
}

impl Statement {
    /// The statement that a camt.053 statement stands for.
    #[verifier::loop_isolation(false)]
    pub fn from_camt_statement(statement: Camt053Statement) -> (r: Result<Statement, ParseError>)
        ensures
            statement_outcome(r, camt_statement_of(statement)),
            r matches Ok(s) ==> s@.period_ordered(),
    {
        let currency = match detect_currency(&statement) {
            Ok(c) => c,
            Err(e) => {
                return Err(e);
            },
        };
        let (opening_balance, closing_balance) = extract_balances(&statement);
        let (period_from, period_until) = match detect_period(&statement) {
            Ok(p) => p,
            Err(e) => {
                return Err(e);
            },
        };
        let mut transactions: Vec<Transaction> = Vec::new();
        let mut i: usize = 0;
        assert(transaction_views(transactions@) =~= Seq::<TransactionView>::empty());
        while i < statement.entries.len()
            invariant
                i <= statement.entries.len(),
                camt_transactions_of(statement.entries@, i as int) == Ok::<
                    Seq<TransactionView>,
                    ErrorKind,
                >(transaction_views(transactions@)),
            decreases statement.entries.len() - i,
        {
            let tx = match Transaction::from_camt_entry(&statement.entries[i]) {
                Ok(t) => t,
                Err(e) => {
                    proof {
                        assert(camt_transactions_of(statement.entries@, i + 1) is Err);
                        lemma_camt_transactions_fail(
                            statement.entries@,
                            i + 1,
                            statement.entries@.len() as int,
                        );
                    }
                    return Err(e);
                },
            };
            let ghost before = transactions@;
            transactions.push(tx);
            assert(transaction_views(transactions@) =~= transaction_views(before).push(tx@));
            i += 1;
        }
        let account_id = match statement.account.id.iban {
            Some(iban) => iban,
            None => "not provided".to_string(),
        };
        let statement = Statement::new(
            account_id,
            statement.account.name,
            currency,
            opening_balance,
            closing_balance,
            transactions,
            period_from,
            period_until,
        );
        if !statement.has_ordered_period() {
            return Err(ParseError::BadInput("the statement period ends before it begins".to_string()));
        }
        Ok(statement)
    }
}

impl<'a> TryFrom<&'a Camt053Entry> for Transaction {
    type Error = ParseError;

    /// The transaction that a camt.053 entry stands for.
    fn try_from(entry: &'a Camt053Entry) -> (r: Result<Self, ParseError>)
        ensures
            transaction_outcome(r, camt_transaction_of(*entry)),
    {
        Transaction::from_camt_entry(entry)
    }
}

impl TryFrom<Camt053Statement> for Statement {
    type Error = ParseError;

    /// The statement that a camt.053 statement stands for.
    fn try_from(statement: Camt053Statement) -> (r: Result<Self, ParseError>)
        ensures
            statement_outcome(r, camt_statement_of(statement)),
            r matches Ok(s) ==> s@.period_ordered(),
    {
        Statement::from_camt_statement(statement)
    }
}

impl TryFrom<Camt053Data> for Statement {
    type Error = ParseError;

    /// The statement that the first statement of a message stands for.
    fn try_from(data: Camt053Data) -> (r: Result<Self, ParseError>)
        ensures
            statement_outcome(r, camt_statement_of(data.statement)),
    {
        Statement::from_camt_statement(data.statement)
    }
}

/// The conversion is stated by the `ensures` of `try_from`, over kinds of
/// error; no spec function gives its result to the letter.
impl<'a> vstd::std_specs::convert::TryFromSpecImpl<&'a Camt053Entry> for Transaction {
    open spec fn obeys_try_from_spec() -> bool {
        false
    }

    open spec fn try_from_spec(v: &'a Camt053Entry) -> Result<Self, ParseError> {
        arbitrary()
    }
}

impl vstd::std_specs::convert::TryFromSpecImpl<Camt053Statement> for Statement {
    open spec fn obeys_try_from_spec() -> bool {
        false
    }

    open spec fn try_from_spec(v: Camt053Statement) -> Result<Self, ParseError> {
        arbitrary()
    }
}

impl vstd::std_specs::convert::TryFromSpecImpl<Camt053Data> for Statement {
    open spec fn obeys_try_from_spec() -> bool {
        false
    }

    open spec fn try_from_spec(v: Camt053Data) -> Result<Self, ParseError> {
        arbitrary()
    }
}

} // verus!
