//! What is written into the elements of a camt.053 message is read back
//! from them. Dates go through chrono in both directions: of those the laws
//! say what is handed to chrono, and no more. The codes of the currencies
//! that the library knows by name are read back as it writes them.

use crate::camt053::models::{Camt053Balance, Camt053Entry, Camt053Statement};
use crate::camt053::utils::{
    balances_of, booking_span, camt_balance_of, camt_counterparty_of, camt_date_of,
    camt_description_of, currency_from, indicated,
};
use crate::camt053::{camt_statement_of, camt_transaction_of, camt_transactions_of, first_detail};
use crate::date::{iso_text, ymd_le};
use crate::error::ErrorKind;
use crate::laws::law_amount_round_trip;
use crate::model::{Balance, StatementView, TransactionView};
use crate::serialization::camt053_helpers::{
    are_balances_of, camt_code_text, is_balance_of, is_entry_of, is_statement_of,
};
use crate::text::{join, string_views};
use crate::utils::amount_of;
use vstd::prelude::*;

verus! {

/// The two indicators and the two balance type codes differ.
pub proof fn lemma_codes()
    ensures
        "CRDT"@ != "DBIT"@,
        "OPBD"@ != "CLBD"@,
{
    reveal_strlit("CRDT");
    reveal_strlit("DBIT");
    reveal_strlit("OPBD");
    reveal_strlit("CLBD");
    assert("CRDT"@[0] != "DBIT"@[0]);
    assert("OPBD"@[0] != "CLBD"@[0]);
}

/// A balance element that was made of a balance is read as that balance,
/// if the magnitude fits 64 bits.
pub proof fn law_camt_balance_round_trip(b: Camt053Balance, code: Seq<char>, value: Balance, ccy: Seq<char>)
    requires
        is_balance_of(b, code, value, ccy),
        -(u64::MAX as int) <= value <= u64::MAX as int,
    ensures
        camt_balance_of(b) == Ok::<Balance, ErrorKind>(value),
{
    lemma_codes();
    let magnitude: nat = if value < 0 {
        (-value) as nat
    } else {
        value as nat
    };
    law_amount_round_trip(magnitude as u64, '.');
}

/// The balance elements that were made of a statement are read as its
/// opening and closing balance, if their magnitudes fit 64 bits.
pub proof fn law_camt_balances_round_trip(bs: Seq<Camt053Balance>, s: StatementView, ccy: Seq<char>)
    requires
        are_balances_of(bs, s, ccy),
        s.opening_balance matches Some(b) ==> -(u64::MAX as int) <= b <= u64::MAX as int,
        s.closing_balance matches Some(b) ==> -(u64::MAX as int) <= b <= u64::MAX as int,
    ensures
        balances_of(bs, bs.len() as int) == (s.opening_balance, s.closing_balance),
{
    lemma_codes();
    reveal_with_fuel(balances_of, 3);
    match (s.opening_balance, s.closing_balance) {
        (Some(o), Some(c)) => {
            law_camt_balance_round_trip(bs[0], "OPBD"@, o, ccy);
            law_camt_balance_round_trip(bs[1], "CLBD"@, c, ccy);
        },
        (Some(o), None) => {
            law_camt_balance_round_trip(bs[0], "OPBD"@, o, ccy);
        },
        (None, Some(c)) => {
            law_camt_balance_round_trip(bs[0], "CLBD"@, c, ccy);
        },
        (None, None) => {},
    }
}

/// An entry element that was made of a transaction is read with the
/// direction, the amount, the description and the counterparty of the
/// transaction.
pub proof fn law_camt_entry_round_trip(e: Camt053Entry, tx: TransactionView, ccy: Seq<char>)
    requires
        is_entry_of(e, tx, ccy),
    ensures
        indicated(e.cdt_dbt_ind@) == Some(tx.direction),
        amount_of(e.amount.value@) == Ok::<u64, ErrorKind>(tx.amount),
        first_detail(e) matches Some(d) && camt_description_of(d) == tx.description
            && camt_counterparty_of(d, tx.direction) == (tx.counterparty, tx.counterparty_name),
{
    lemma_codes();
    law_amount_round_trip(tx.amount, '.');
    let d = first_detail(e)->0;
    match d.rmt_inf {
        Some(rmt) => {
            let parts = string_views(rmt.unstructured@);
            assert(parts =~= seq![tx.description]);
            assert(join(parts, "\n"@) == tx.description);
        },
        None => {
            assert(tx.description =~= Seq::<char>::empty());
        },
    }
}

/// A reporting period that is derived from the booking dates of the
/// entries does not end before it begins.
pub proof fn law_derived_period_ordered(entries: Seq<Camt053Entry>, n: int)
    requires
        booking_span(entries, n) matches Ok(Some(_)),
    ensures
        ({
            let span = booking_span(entries, n)->Ok_0->0;
            ymd_le(span.0, span.1)
        }),
    decreases n,
{
    if n > 0 {
        match booking_span(entries, n - 1) {
            Ok(Some(_)) => {
                law_derived_period_ordered(entries, n - 1);
            },
            _ => {},
        }
    }
}

/// Where the first `n` entries stand for transactions, each of them does.
pub proof fn lemma_each_transaction(entries: Seq<Camt053Entry>, n: int)
    requires
        0 <= n <= entries.len(),
        camt_transactions_of(entries, n) is Ok,
    ensures
        camt_transactions_of(entries, n)->Ok_0.len() == n,
        forall|i: int|
            0 <= i < n ==> camt_transaction_of(#[trigger] entries[i]) == Ok::<
                TransactionView,
                ErrorKind,
            >(camt_transactions_of(entries, n)->Ok_0[i]),
    decreases n,
{
    if n > 0 {
        lemma_each_transaction(entries, n - 1);
    }
}

/// Whether a transaction that was read from a camt.053 entry agrees with
/// the one that was written on amount, direction, description and
/// counterparty, and has the dates that are read from the dates that were
/// written for it.
pub open spec fn camt_agrees(read: TransactionView, written: TransactionView) -> bool {
    &&& read.amount == written.amount
    &&& read.direction == written.direction
    &&& read.description == written.description
    &&& read.counterparty == written.counterparty
    &&& read.counterparty_name == written.counterparty_name
    &&& camt_date_of(iso_text(written.booking_date)) == Ok::<(int, int, int), ErrorKind>(
        read.booking_date,
    )
    &&& read.value_date matches Some(d) && camt_date_of(
        iso_text(
            match written.value_date {
                Some(v) => v,
                None => written.booking_date,
            },
        ),
    ) == Ok::<(int, int, int), ErrorKind>(d)
}

/// A statement that was written as a camt.053 statement element and is
/// read from it has its account, the name of its account and its balances
/// as they were, if their magnitudes fit 64 bits, and each transaction with
/// its amount, direction, description and counterparty. Its currency is
/// what the code of the currency is read as, which for a currency that the
/// library knows by name is that currency. Whether the element is read at
/// all lies with chrono: the dates are what it reads from the dates that it
/// wrote, and they must come out in order.
pub proof fn law_camt_statement_round_trip(
    e: Camt053Statement,
    s: StatementView,
    day: (int, int, int),
    clock: (int, int, int),
)
    requires
        is_statement_of(e, s, day, clock),
        s.opening_balance matches Some(b) ==> -(u64::MAX as int) <= b <= u64::MAX as int,
        s.closing_balance matches Some(b) ==> -(u64::MAX as int) <= b <= u64::MAX as int,
        camt_statement_of(e) is Ok,
    ensures
        ({
            let back = camt_statement_of(e)->Ok_0;
            &&& back.account_id == s.account_id
            &&& back.account_name == s.account_name
            &&& back.opening_balance == s.opening_balance
            &&& back.closing_balance == s.closing_balance
            &&& back.currency == currency_from(camt_code_text(s.currency))
            &&& !(s.currency is Other) ==> back.currency == s.currency
            &&& back.period_ordered()
            &&& camt_date_of(iso_text(s.period_from)) == Ok::<(int, int, int), ErrorKind>(
                back.period_from,
            )
            &&& camt_date_of(iso_text(s.period_until)) == Ok::<(int, int, int), ErrorKind>(
                back.period_until,
            )
            &&& back.transactions.len() == s.transactions.len()
            &&& forall|i: int|
                0 <= i < s.transactions.len() ==> camt_agrees(
                    #[trigger] back.transactions[i],
                    s.transactions[i],
                )
        }),
{
    let ccy = camt_code_text(s.currency);
    let n = e.entries@.len() as int;
    if !(s.currency is Other) {
        crate::laws::law_currency_round_trip(s.currency);
    }
    law_camt_balances_round_trip(e.balances@, s, ccy);
    lemma_each_transaction(e.entries@, n);
    let back = camt_statement_of(e)->Ok_0;
    assert forall|i: int| 0 <= i < n implies camt_agrees(
        #[trigger] back.transactions[i],
        s.transactions[i],
    ) by {
        law_camt_entry_round_trip(e.entries@[i], s.transactions[i], ccy);
    }
}

} // verus!
