//! The elements of a camt.053 message.

use crate::camt053::models::{
    Camt053Account, Camt053AccountId, Camt053Balance, Camt053BalanceCodeOrProprietary,
    Camt053BalanceType, Camt053BankToCustomer, Camt053Document, Camt053Entry, Camt053GroupHeader,
    Camt053Period, Camt053Statement, CamtAccount, CamtAccountId, CamtAmtXml, CamtDateXml,
    CamtEntryDetails, CamtParty, CamtRelatedParties, CamtRemittanceInfo, CamtTxDtls,
};
use crate::date::{clock_text, compact_text, iso_text, Date, Timestamp};
use crate::model::{
    text_of, transaction_views, Balance, Currency, CurrencyView, Direction, Statement,
    StatementView, Transaction, TransactionView,
};
use crate::serialization::common::{format_amount, format_units, minor_units_text};
use crate::text::{chars_of, push_str, string_of, string_views};
use vstd::prelude::*;

verus! {

/// The ISO 4217 code of a currency; `???` for one outside the table.
pub open spec fn camt_code_text(cur: CurrencyView) -> Seq<char> {
    match cur {
        CurrencyView::RUB => "RUB"@,
        CurrencyView::EUR => "EUR"@,
        CurrencyView::USD => "USD"@,
        CurrencyView::CNY => "CNY"@,
        CurrencyView::Other(_) => "???"@,
    }
}

/// The code under which camt.053 names a currency.
pub fn currency_code(cur: &Currency) -> (r: &'static str)
    ensures
        r@ == camt_code_text(cur@),
{
    match cur {
        Currency::RUB => "RUB",
        Currency::EUR => "EUR",
        Currency::USD => "USD",
        Currency::CNY => "CNY",
        Currency::Other(_) => "???",
    }
}

/// A date as `YYYY-MM-DD`.
pub fn format_iso_date(d: Date) -> (r: String)
    ensures
        r@ == iso_text(d@),
{
    d.format_iso()
}

/// The indicator of a direction.
pub open spec fn indicator_of(direction: Direction) -> Seq<char> {
    match direction {
        Direction::Credit => "CRDT"@,
        Direction::Debit => "DBIT"@,
    }
}

/// Whether a balance element is that of the given type code, value and
/// currency code: the magnitude with a dot before the hundredths, the sign
/// as indicator, and no date.
pub open spec fn is_balance_of(b: Camt053Balance, code: Seq<char>, value: Balance, ccy: Seq<char>)
    -> bool {
    &&& text_of(b.balance_type.code_or_proprietary.code) == Some(code)
    &&& b.amount.currency@ == ccy
    &&& b.amount.value@ == minor_units_text(value as int, '.')
    &&& text_of(b.cdt_dbt_ind) == Some(
        if value >= 0 {
            "CRDT"@
        } else {
            "DBIT"@
        },
    )
    &&& b.date is None
}

/// Makes a balance element.
pub fn make_balance(code: &str, value: Balance, ccy_code: &str) -> (r: Camt053Balance)
    ensures
        is_balance_of(r, code@, value, ccy_code@),
{
    let cdt_dbt_ind = if value >= 0 {
        "CRDT".to_string()
    } else {
        "DBIT".to_string()
    };
    Camt053Balance {
        balance_type: Camt053BalanceType {
            code_or_proprietary: Camt053BalanceCodeOrProprietary { code: Some(code.to_string()) },
        },
        amount: CamtAmtXml { currency: ccy_code.to_string(), value: format_units(value, '.') },
        cdt_dbt_ind: Some(cdt_dbt_ind),
        date: None,
    }
}

/// Whether a list of balance elements is that of a statement: the opening
/// balance as `OPBD` and then the closing balance as `CLBD`, each only where
/// the statement has it.
pub open spec fn are_balances_of(bs: Seq<Camt053Balance>, s: StatementView, ccy: Seq<char>) -> bool {
    match (s.opening_balance, s.closing_balance) {
        (Some(o), Some(c)) => bs.len() == 2 && is_balance_of(bs[0], "OPBD"@, o, ccy)
            && is_balance_of(bs[1], "CLBD"@, c, ccy),
        (Some(o), None) => bs.len() == 1 && is_balance_of(bs[0], "OPBD"@, o, ccy),
        (None, Some(c)) => bs.len() == 1 && is_balance_of(bs[0], "CLBD"@, c, ccy),
        (None, None) => bs.len() == 0,
    }
}

/// Makes the balance elements of a statement.
pub fn balances_from_statement(stmt: &Statement, ccy_code: &str) -> (r: Vec<Camt053Balance>)
    ensures
        are_balances_of(r@, stmt@, ccy_code@),
{
    let mut result = Vec::new();
    if let Some(open) = stmt.opening_balance {
        result.push(make_balance("OPBD", open, ccy_code));
    }
    if let Some(close) = stmt.closing_balance {
        result.push(make_balance("CLBD", close, ccy_code));
    }
    result
}

/// Whether a party element names the given party and nothing else.
pub open spec fn is_party(p: Option<CamtParty>, name: Option<Seq<char>>) -> bool {
    p matches Some(party) && text_of(party.name) == name && party.postal_address is None
        && party.id is None
}

/// Whether an account element holds the given IBAN, and is absent where
/// there is none.
pub open spec fn is_account(a: Option<CamtAccount>, iban: Option<Seq<char>>) -> bool {
    match iban {
        Some(i) => a matches Some(account) && text_of(account.id.iban) == Some(i),
        None => a is None,
    }
}

/// Whether the parties element is that of a transaction: absent where
/// neither account nor name of the counterparty is known; otherwise the
/// counterparty as debtor of a credit, or as creditor of a debit.
pub open spec fn are_parties_of(p: Option<CamtRelatedParties>, tx: TransactionView) -> bool {
    if tx.counterparty is None && tx.counterparty_name is None {
        p is None
    } else {
        p matches Some(parties) && parties.ultimate_debtor is None
            && parties.ultimate_creditor is None && match tx.direction {
            Direction::Credit => is_party(parties.debtor, tx.counterparty_name) && is_account(
                parties.debtor_account,
                tx.counterparty,
            ) && parties.creditor is None && parties.creditor_account is None,
            Direction::Debit => is_party(parties.creditor, tx.counterparty_name) && is_account(
                parties.creditor_account,
                tx.counterparty,
            ) && parties.debtor is None && parties.debtor_account is None,
        }
    }
}

/// Whether the remittance element is that of a description: absent where
/// the description is empty, and otherwise the description as its one
/// unstructured line.
pub open spec fn is_remittance_of(r: Option<CamtRemittanceInfo>, description: Seq<char>) -> bool {
    if description.len() == 0 {
        r is None
    } else {
        r matches Some(rmt) && string_views(rmt.unstructured@) == seq![description]
            && rmt.structured@.len() == 0
    }
}

/// Whether a transaction detail is that of a transaction.
pub open spec fn is_detail_of(d: CamtTxDtls, tx: TransactionView) -> bool {
    &&& d.refs is None
    &&& d.amount_details is None
    &&& d.related_datetimes is None
    &&& are_parties_of(d.related_parties, tx)
    &&& is_remittance_of(d.rmt_inf, tx.description)
}

/// Whether an entry element is that of a transaction under a currency
/// code: amount with a dot before the hundredths, indicator, booking date,
/// value date (the booking date where there is none), and one detail.
pub open spec fn is_entry_of(e: Camt053Entry, tx: TransactionView, ccy: Seq<char>) -> bool {
    &&& e.amount.currency@ == ccy
    &&& e.amount.value@ == minor_units_text(tx.amount as int, '.')
    &&& e.cdt_dbt_ind@ == indicator_of(tx.direction)
    &&& e.booking_date.date@ == iso_text(tx.booking_date)
    &&& e.value_date.date@ == iso_text(
        match tx.value_date {
            Some(d) => d,
            None => tx.booking_date,
        },
    )
    &&& e.details matches Some(d) && d.tx_details@.len() == 1 && is_detail_of(d.tx_details@[0], tx)
}

fn clone_opt(o: &Option<String>) -> (r: Option<String>)
    ensures
        text_of(r) == text_of(*o),
{
    match o {
        Some(s) => Some(s.clone()),
        None => None,
    }
}

/// Makes the entry element of a transaction.
pub fn entry_from_transaction(tx: &Transaction, ccy_code: &str) -> (r: Camt053Entry)
    ensures
        is_entry_of(r, tx@, ccy_code@),
{
    let cdt_dbt_ind = match tx.direction {
        Direction::Credit => "CRDT".to_string(),
        Direction::Debit => "DBIT".to_string(),
    };
    let amount_str = format_amount(tx.amount, '.');
    let booking_date = CamtDateXml { date: format_iso_date(tx.booking_date) };
    let value_date = CamtDateXml {
        date: format_iso_date(
            match tx.value_date {
                Some(d) => d,
                None => tx.booking_date,
            },
        ),
    };
    let described = tx.description.as_str().unicode_len() > 0;
    let rmt_inf = if !described {
        None
    } else {
        let mut lines: Vec<String> = Vec::new();
        lines.push(tx.description.clone());
        assert(string_views(lines@) =~= seq![tx.description@]);
        Some(CamtRemittanceInfo { unstructured: lines, structured: Vec::new() })
    };
    let related_parties = if tx.counterparty.is_none() && tx.counterparty_name.is_none() {
        None
    } else {
        let party = CamtParty {
            name: clone_opt(&tx.counterparty_name),
            postal_address: None,
            id: None,
        };
        let account = match &tx.counterparty {
            Some(acc) => Some(CamtAccount { id: CamtAccountId { iban: Some(acc.clone()) } }),
            None => None,
        };
        Some(
            match tx.direction {
                Direction::Credit => CamtRelatedParties {
                    debtor: Some(party),
                    debtor_account: account,
                    creditor: None,
                    creditor_account: None,
                    ultimate_debtor: None,
                    ultimate_creditor: None,
                },
                Direction::Debit => CamtRelatedParties {
                    debtor: None,
                    debtor_account: None,
                    creditor: Some(party),
                    creditor_account: account,
                    ultimate_debtor: None,
                    ultimate_creditor: None,
                },
            },
        )
    };
    let tx_dtls = CamtTxDtls {
        refs: None,
        amount_details: None,
        related_parties,
        rmt_inf,
        related_datetimes: None,
    };
    let mut tx_details: Vec<CamtTxDtls> = Vec::new();
    tx_details.push(tx_dtls);
    Camt053Entry {
        amount: CamtAmtXml { currency: ccy_code.to_string(), value: amount_str },
        cdt_dbt_ind,
        booking_date,
        value_date,
        details: Some(CamtEntryDetails { tx_details }),
    }
}

/// Whether a list of entry elements is that of a list of transactions: one
/// entry for each transaction, in order.
pub open spec fn are_entries_of(es: Seq<Camt053Entry>, txs: Seq<TransactionView>, ccy: Seq<char>)
    -> bool {
    es.len() == txs.len() && forall|i: int|
        0 <= i < es.len() ==> is_entry_of(#[trigger] es[i], txs[i], ccy)
}

/// Makes the entry elements of a list of transactions.
pub fn entries_from_transactions(txs: &[Transaction], ccy_code: &str) -> (r: Vec<Camt053Entry>)
    ensures
        are_entries_of(r@, transaction_views(txs@), ccy_code@),
{
    let mut r: Vec<Camt053Entry> = Vec::new();
    let mut i: usize = 0;
    while i < txs.len()
        invariant
            i <= txs.len(),
            r@.len() == i,
            forall|k: int|
                0 <= k < i ==> is_entry_of(#[trigger] r@[k], transaction_views(txs@)[k], ccy_code@),
        decreases txs.len() - i,
    {
        r.push(entry_from_transaction(&txs[i], ccy_code));
        i += 1;
    }
    r
}

/// Whether a statement element is that of a statement, made on the given
/// day at the given time: an identifier from account and time, sequence
/// number one, the time of making, the period, the account with the
/// currency code, the balances and the entries.
pub open spec fn is_statement_of(
    e: Camt053Statement,
    s: StatementView,
    day: (int, int, int),
    clock: (int, int, int),
) -> bool {
    let ccy = camt_code_text(s.currency);
    &&& text_of(e.id) == Some("stmt-"@ + s.account_id + "-"@ + compact_text(day, clock))
    &&& e.sequence_number == Some(1u32)
    &&& text_of(e.created_at) == Some(iso_text(day) + seq!['T'] + clock_text(clock))
    &&& e.period matches Some(p) && text_of(p.from) == Some(iso_text(s.period_from)) && text_of(p.to)
        == Some(iso_text(s.period_until))
    &&& text_of(e.account.id.iban) == Some(s.account_id)
    &&& text_of(e.account.name) == s.account_name
    &&& text_of(e.account.currency) == Some(ccy)
    &&& are_balances_of(e.balances@, s, ccy)
    &&& are_entries_of(e.entries@, s.transactions, ccy)
}

/// Whether a message is that of a statement, made on the given day at the
/// given time: a group header with an identifier from the time and with the
/// time of making, and the one statement.
pub open spec fn is_document_of(
    doc: Camt053Document,
    s: StatementView,
    day: (int, int, int),
    clock: (int, int, int),
) -> bool {
    let m = doc.bank_to_customer;
    &&& m.group_header matches Some(h) && h.message_id@ == "serialized_via_parser-"@ + compact_text(
        day,
        clock,
    ) && text_of(h.created_at) == Some(iso_text(day) + seq!['T'] + clock_text(clock))
    &&& m.statements@.len() == 1
    &&& is_statement_of(m.statements@[0], s, day, clock)
}

/// Makes the camt.053 message of a statement at the time `now`.
pub fn document_of(stmt: &Statement, now: Timestamp) -> (r: Camt053Document)
    ensures
        is_document_of(r, stmt@, now.day(), now.clock()),
{
    let ccy_code = currency_code(&stmt.currency);
    let compact = now.format_compact();
    let made = now.format_iso();
    let mut id = chars_of("stmt-");
    push_str(&mut id, stmt.account_id.as_str());
    push_str(&mut id, "-");
    push_str(&mut id, compact.as_str());
    let mut message_id = chars_of("serialized_via_parser-");
    push_str(&mut message_id, compact.as_str());
    let statement = Camt053Statement {
        id: Some(string_of(id.as_slice())),
        sequence_number: Some(1),
        created_at: Some(made.clone()),
        period: Some(
            Camt053Period {
                from: Some(format_iso_date(stmt.period_from)),
                to: Some(format_iso_date(stmt.period_until)),
            },
        ),
        account: Camt053Account {
            id: Camt053AccountId { iban: Some(stmt.account_id.clone()) },
            name: clone_opt(&stmt.account_name),
            currency: Some(ccy_code.to_string()),
        },
        balances: balances_from_statement(stmt, ccy_code),
        entries: entries_from_transactions(stmt.transactions.as_slice(), ccy_code),
    };
    let mut statements: Vec<Camt053Statement> = Vec::new();
    statements.push(statement);
    Camt053Document {
        bank_to_customer: Camt053BankToCustomer {
            group_header: Some(
                Camt053GroupHeader {
                    message_id: string_of(message_id.as_slice()),
                    created_at: Some(made),
                },
            ),
            statements,
        },
    }
}

} // verus!
