//! What the canonical statement takes from the elements of a camt.053
//! statement: currency, balances, period, counterparty and description.

use crate::camt053::models::{
    Camt053Balance, Camt053Entry, Camt053Statement, CamtAccount, CamtParty, CamtTxDtls,
};
use crate::date::{chrono_date, chrono_date_time, ymd_le, Date, Timestamp};
use crate::error::{same_outcome, with_detail, ErrorKind, ParseError};
use crate::model::{date_outcome, text_of, Balance, Currency, CurrencyView, Direction};
use crate::text::{chars_of, equals_str, join, join_strings, string_of, string_views};
use crate::utils::{currency_of_text, parse_currency, parse_signed_balance, signed_balance_of};
use vstd::prelude::*;

verus! {

/// The currency that a name or code stands for.
pub open spec fn currency_from(text: Seq<char>) -> CurrencyView {
    currency_of_text(text)
}

/// The currency of a statement: that of its account; failing that, that of
/// its first balance; failing that, that of its first entry.
pub open spec fn currency_of(stmt: Camt053Statement) -> Result<CurrencyView, ErrorKind> {
    match stmt.account.currency {
        Some(c) => Ok(currency_from(c@)),
        None => if stmt.balances@.len() > 0 {
            Ok(currency_from(stmt.balances@[0].amount.currency@))
        } else if stmt.entries@.len() > 0 {
            Ok(currency_from(stmt.entries@[0].amount.currency@))
        } else {
            Err(ErrorKind::InvalidCurrency)
        },
    }
}

/// Finds the currency of a statement.
pub fn detect_currency(stmt: &Camt053Statement) -> (r: Result<Currency, ParseError>)
    ensures
        match r {
            Ok(c) => currency_of(*stmt) == Ok::<CurrencyView, ErrorKind>(c@),
            Err(e) => currency_of(*stmt) == Err::<CurrencyView, ErrorKind>(e.kind()),
        },
{
    if let Some(ccy) = &stmt.account.currency {
        return Ok(parse_currency(ccy.as_str()));
    }
    if stmt.balances.len() > 0 {
        return Ok(parse_currency(stmt.balances[0].amount.currency.as_str()));
    }
    if stmt.entries.len() > 0 {
        return Ok(parse_currency(stmt.entries[0].amount.currency.as_str()));
    }
    Err(ParseError::InvalidCurrency("no currency found".to_string()))
}

/// The direction that a credit/debit indicator stands for.
pub open spec fn indicated(indicator: Seq<char>) -> Option<Direction> {
    if indicator == "CRDT"@ {
        Some(Direction::Credit)
    } else if indicator == "DBIT"@ {
        Some(Direction::Debit)
    } else {
        None
    }
}

/// Reads a credit/debit indicator.
pub fn direction_from_indicator(indicator: &str) -> (r: Option<Direction>)
    ensures
        r == indicated(indicator@),
{
    let chars = chars_of(indicator);
    if equals_str(chars.as_slice(), "CRDT") {
        Some(Direction::Credit)
    } else if equals_str(chars.as_slice(), "DBIT") {
        Some(Direction::Debit)
    } else {
        None
    }
}

/// The signed value of a balance: its indicator must be there and name a
/// direction, and its amount is signed by it.
pub open spec fn camt_balance_of(bal: Camt053Balance) -> Result<Balance, ErrorKind> {
    match bal.cdt_dbt_ind {
        Some(ind) => match indicated(ind@) {
            Some(direction) => signed_balance_of(bal.amount.value@, direction),
            None => Err(ErrorKind::InvalidAmount),
        },
        None => Err(ErrorKind::InvalidAmount),
    }
}

/// Reads the signed value of a balance.
pub fn balance_from_camt(bal: &Camt053Balance) -> (r: Result<Balance, ParseError>)
    ensures
        same_outcome(r, camt_balance_of(*bal)),
        r matches Ok(b) ==> (bal.cdt_dbt_ind matches Some(ind) && (ind@ == "CRDT"@ ==> b >= 0)
            && (ind@ != "CRDT"@ ==> b <= 0)),
{
    let direction = match &bal.cdt_dbt_ind {
        Some(ind) => match direction_from_indicator(ind.as_str()) {
            Some(d) => d,
            None => {
                let mut text = chars_of("unknown CdtDbtInd: Some(\"");
                crate::text::push_str(&mut text, ind.as_str());
                crate::text::push_str(&mut text, "\")");
                return Err(ParseError::InvalidAmount(string_of(text.as_slice())));
            },
        },
        None => {
            return Err(ParseError::InvalidAmount("unknown CdtDbtInd: None".to_string()));
        },
    };
    parse_signed_balance(bal.amount.value.as_str(), direction)
}

/// The value of a balance, or nothing where it is malformed.
pub open spec fn readable_balance(bal: Camt053Balance) -> Option<Balance> {
    match camt_balance_of(bal) {
        Ok(b) => Some(b),
        Err(_) => None,
    }
}

/// Opening and closing balance among the first `n` balances: a balance of
/// type `OPBD` sets the opening balance and one of type `CLBD` the closing
/// balance, each to its value or to nothing where it is malformed; the last
/// of each type counts. Other types are passed over.
pub open spec fn balances_of(balances: Seq<Camt053Balance>, n: int) -> (
    Option<Balance>,
    Option<Balance>,
)
    decreases n,
{
    if n <= 0 {
        (None, None)
    } else {
        let before = balances_of(balances, n - 1);
        let bal = balances[n - 1];
        match bal.balance_type.code_or_proprietary.code {
            Some(code) => if code@ == "OPBD"@ {
                (readable_balance(bal), before.1)
            } else if code@ == "CLBD"@ {
                (before.0, readable_balance(bal))
            } else {
                before
            },
            None => before,
        }
    }
}

/// Picks the opening and the closing balance of a statement.
pub fn extract_balances(stmt: &Camt053Statement) -> (r: (Option<Balance>, Option<Balance>))
    ensures
        r == balances_of(stmt.balances@, stmt.balances@.len() as int),
{
    let mut opening: Option<Balance> = None;
    let mut closing: Option<Balance> = None;
    let mut i: usize = 0;
    while i < stmt.balances.len()
        invariant
            i <= stmt.balances.len(),
            (opening, closing) == balances_of(stmt.balances@, i as int),
        decreases stmt.balances.len() - i,
    {
        let bal = &stmt.balances[i];
        let parsed = match balance_from_camt(bal) {
            Ok(b) => Some(b),
            Err(_) => None,
        };
        if let Some(code) = &bal.balance_type.code_or_proprietary.code {
            let chars = chars_of(code.as_str());
            if equals_str(chars.as_slice(), "OPBD") {
                opening = parsed;
            } else if equals_str(chars.as_slice(), "CLBD") {
                closing = parsed;
            }
        }
        i += 1;
    }
    (opening, closing)
}

/// The day that a camt date stands for: a date `YYYY-MM-DD`, or the day of
/// a date and time `YYYY-MM-DDThh:mm:ss`, as chrono reads them.
pub open spec fn camt_date_of(s: Seq<char>) -> Result<(int, int, int), ErrorKind> {
    match chrono_date(s, "%Y-%m-%d"@) {
        Some(d) => Ok(d),
        None => match chrono_date_time(s, "%Y-%m-%dT%H:%M:%S"@) {
            Some((d, _)) => Ok(d),
            None => Err(ErrorKind::BadInput),
        },
    }
}

/// Reads a camt date, with or without a time of day.
pub fn parse_camt_date_to_naive(s: &str) -> (r: Result<Date, ParseError>)
    ensures
        date_outcome(r, camt_date_of(s@)),
{
    if let Ok(d) = Date::parse_from_str(s, "%Y-%m-%d") {
        return Ok(d);
    }
    if let Ok(t) = Timestamp::parse_from_str(s, "%Y-%m-%dT%H:%M:%S") {
        return Ok(t.date());
    }
    let chars = chars_of(s);
    Err(ParseError::BadInput(with_detail("invalid CAMT date: ", chars.as_slice())))
}

/// The earliest and the latest booking date among the first `n` entries;
/// nothing where there is no entry; an error at the first date that is
/// malformed.
pub open spec fn booking_span(entries: Seq<Camt053Entry>, n: int) -> Result<
    Option<((int, int, int), (int, int, int))>,
    ErrorKind,
>
    decreases n,
{
    if n <= 0 {
        Ok(None)
    } else {
        match booking_span(entries, n - 1) {
            Err(k) => Err(k),
            Ok(before) => match camt_date_of(entries[n - 1].booking_date.date@) {
                Err(k) => Err(k),
                Ok(d) => match before {
                    None => Ok(Some((d, d))),
                    Some((lo, hi)) => Ok(
                        Some(
                            (
                                if ymd_le(lo, d) {
                                    lo
                                } else {
                                    d
                                },
                                if ymd_le(hi, d) {
                                    d
                                } else {
                                    hi
                                },
                            ),
                        ),
                    ),
                },
            },
        }
    }
}

/// Once a prefix of the entries fails, every longer prefix fails alike.
pub proof fn lemma_booking_span_fails(entries: Seq<Camt053Entry>, n: int, m: int)
    requires
        0 <= n <= m,
        booking_span(entries, n) is Err,
    ensures
        booking_span(entries, m) == booking_span(entries, n),
    decreases m - n,
{
    if n < m {
        lemma_booking_span_fails(entries, n, m - 1);
    }
}

/// The reporting period of a statement: the two ends that it states, where
/// it states both; otherwise from the earliest to the latest booking date of
/// its entries. Without either, or with a malformed date, there is none.
pub open spec fn period_of(stmt: Camt053Statement) -> Result<
    ((int, int, int), (int, int, int)),
    ErrorKind,
> {
    let stated = match stmt.period {
        Some(p) => match (p.from, p.to) {
            (Some(from), Some(to)) => Some((from@, to@)),
            _ => None,
        },
        None => None,
    };
    match stated {
        Some((from, to)) => match (camt_date_of(from), camt_date_of(to)) {
            (Ok(a), Ok(b)) => Ok((a, b)),
            _ => Err(ErrorKind::BadInput),
        },
        None => match booking_span(stmt.entries@, stmt.entries@.len() as int) {
            Ok(Some(span)) => Ok(span),
            _ => Err(ErrorKind::BadInput),
        },
    }
}

/// What a pair of dates stands for.
pub open spec fn span_outcome(r: Result<(Date, Date), ParseError>, expected: Result<
    ((int, int, int), (int, int, int)),
    ErrorKind,
>) -> bool {
    match r {
        Ok((a, b)) => expected == Ok::<((int, int, int), (int, int, int)), ErrorKind>((a@, b@)),
        Err(e) => expected == Err::<((int, int, int), (int, int, int)), ErrorKind>(e.kind()),
    }
}

/// What an optional pair of dates stands for.
pub open spec fn span_view(o: Option<(Date, Date)>) -> Option<((int, int, int), (int, int, int))> {
    match o {
        Some((a, b)) => Some((a@, b@)),
        None => None,
    }
}

/// Finds the reporting period of a statement.
#[verifier::loop_isolation(false)]
pub fn detect_period(stmt: &Camt053Statement) -> (r: Result<(Date, Date), ParseError>)
    ensures
        span_outcome(r, period_of(*stmt)),
{
    if let Some(period) = &stmt.period {
        if let (Some(raw_from), Some(raw_to)) = (&period.from, &period.to) {
            let from = match parse_camt_date_to_naive(raw_from.as_str()) {
                Ok(d) => d,
                Err(e) => {
                    return Err(e);
                },
            };
            let to = match parse_camt_date_to_naive(raw_to.as_str()) {
                Ok(d) => d,
                Err(e) => {
                    return Err(e);
                },
            };
            return Ok((from, to));
        }
    }
    let mut span: Option<(Date, Date)> = None;
    let mut i: usize = 0;
    while i < stmt.entries.len()
        invariant
            i <= stmt.entries.len(),
            booking_span(stmt.entries@, i as int) == Ok::<
                Option<((int, int, int), (int, int, int))>,
                ErrorKind,
            >(span_view(span)),
        decreases stmt.entries.len() - i,
    {
        let d = match parse_camt_date_to_naive(stmt.entries[i].booking_date.date.as_str()) {
            Ok(d) => d,
            Err(e) => {
                proof {
                    assert(booking_span(stmt.entries@, i + 1) is Err);
                    lemma_booking_span_fails(stmt.entries@, i + 1, stmt.entries@.len() as int);
                }
                return Err(e);
            },
        };
        span = Some(
            match span {
                Some((lo, hi)) => (lo.min(d), hi.max(d)),
                None => (d, d),
            },
        );
        i += 1;
    }
    match span {
        Some(pair) => Ok(pair),
        None => Err(ParseError::BadInput("missing camt statement period".to_string())),
    }
}

/// The name of an optional party.
pub open spec fn party_name(p: Option<CamtParty>) -> Option<Seq<char>> {
    match p {
        Some(party) => text_of(party.name),
        None => None,
    }
}

/// The IBAN of an optional account.
pub open spec fn account_iban(a: Option<CamtAccount>) -> Option<Seq<char>> {
    match a {
        Some(account) => text_of(account.id.iban),
        None => None,
    }
}

/// Account and name of the other party of a transaction. For a debit, the
/// other party is the creditor, for a credit the debtor; the ultimate party
/// is preferred to the direct one for the name, and the account is that of
/// the direct party.
pub open spec fn camt_counterparty_of(tx: CamtTxDtls, direction: Direction) -> (
    Option<Seq<char>>,
    Option<Seq<char>>,
) {
    match tx.related_parties {
        None => (None, None),
        Some(parties) => match direction {
            Direction::Debit => (
                account_iban(parties.creditor_account),
                party_name(
                    if parties.ultimate_creditor is Some {
                        parties.ultimate_creditor
                    } else {
                        parties.creditor
                    },
                ),
            ),
            Direction::Credit => (
                account_iban(parties.debtor_account),
                party_name(
                    if parties.ultimate_debtor is Some {
                        parties.ultimate_debtor
                    } else {
                        parties.debtor
                    },
                ),
            ),
        },
    }
}

fn name_of(first: &Option<CamtParty>, second: &Option<CamtParty>) -> (r: Option<String>)
    ensures
        text_of(r) == party_name(
            if *first is Some {
                *first
            } else {
                *second
            },
        ),
{
    let party = match first {
        Some(p) => Some(p),
        None => match second {
            Some(p) => Some(p),
            None => None,
        },
    };
    match party {
        Some(p) => match &p.name {
            Some(n) => Some(n.clone()),
            None => None,
        },
        None => None,
    }
}

fn iban_of_account(account: &Option<CamtAccount>) -> (r: Option<String>)
    ensures
        text_of(r) == account_iban(*account),
{
    match account {
        Some(a) => match &a.id.iban {
            Some(i) => Some(i.clone()),
            None => None,
        },
        None => None,
    }
}

/// Finds account and name of the other party of a transaction.
pub fn counterparty_from_tx(tx: &CamtTxDtls, direction: Direction) -> (r: (
    Option<String>,
    Option<String>,
))
    ensures
        (text_of(r.0), text_of(r.1)) == camt_counterparty_of(*tx, direction),
{
    let parties = match &tx.related_parties {
        Some(p) => p,
        None => {
            return (None, None);
        },
    };
    match direction {
        Direction::Debit => (
            iban_of_account(&parties.creditor_account),
            name_of(&parties.ultimate_creditor, &parties.creditor),
        ),
        Direction::Credit => (
            iban_of_account(&parties.debtor_account),
            name_of(&parties.ultimate_debtor, &parties.debtor),
        ),
    }
}

/// The description of a transaction: its unstructured remittance lines,
/// joined by line feeds.
pub open spec fn camt_description_of(tx: CamtTxDtls) -> Seq<char> {
    match tx.rmt_inf {
        Some(rmt) => if rmt.unstructured@.len() > 0 {
            join(string_views(rmt.unstructured@), "\n"@)
        } else {
            Seq::empty()
        },
        None => Seq::empty(),
    }
}

/// Builds the description of a transaction.
pub fn description_from_tx(tx: &CamtTxDtls) -> (r: String)
    ensures
        r@ == camt_description_of(*tx),
{
    if let Some(rmt) = &tx.rmt_inf {
        if rmt.unstructured.len() > 0 {
            return join_strings(&rmt.unstructured, "\n");
        }
    }
    String::new()
}

} // verus!
