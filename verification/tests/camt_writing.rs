use parser::date::Date;
use parser::model::{Currency, Direction, Statement, Transaction};
use parser::serialization::camt053_helpers::{
    balances_from_statement, currency_code, entries_from_transactions, entry_from_transaction,
    format_iso_date,
};
fn ymd(y: i32, m: u32, d: u32) -> Date {
    Date::from_ymd_opt(y, m, d).unwrap()
}

#[test]
fn currency_code_returns_iso_for_known_currencies() {
    assert_eq!(currency_code(&Currency::RUB), "RUB");
    assert_eq!(currency_code(&Currency::EUR), "EUR");
    assert_eq!(currency_code(&Currency::USD), "USD");
    assert_eq!(currency_code(&Currency::CNY), "CNY");
}

#[test]
fn currency_code_returns_placeholder_for_other() {
    let cur = Currency::Other("ABC".to_string());
    assert_eq!(currency_code(&cur), "???");
}

#[test]
fn format_iso_date_formats_correctly() {
    let date = ymd(2023, 4, 19);
    assert_eq!(format_iso_date(date), "2023-04-19");

    let date = ymd(1999, 12, 31);
    assert_eq!(format_iso_date(date), "1999-12-31");
}

#[test]
fn balances_from_statement_creates_opening_and_closing_balances() {
    let stmt = Statement::new(
        "ACC".to_string(),
        Some("Test account".to_string()),
        Currency::EUR,
        Some(100_00),
        Some(-50_00),
        Vec::new(),
        ymd(2023, 1, 1),
        ymd(2023, 1, 31),
    );

    let balances = balances_from_statement(&stmt, "EUR");
    assert_eq!(balances.len(), 2);

    let opbd = &balances[0];
    assert_eq!(
        opbd.balance_type.code_or_proprietary.code.as_deref(),
        Some("OPBD")
    );
    assert_eq!(opbd.amount.currency, "EUR");
    assert_eq!(opbd.amount.value, "100.00");
    assert_eq!(opbd.cdt_dbt_ind.as_deref(), Some("CRDT"));

    let clbd = &balances[1];
    assert_eq!(
        clbd.balance_type.code_or_proprietary.code.as_deref(),
        Some("CLBD")
    );
    assert_eq!(clbd.amount.currency, "EUR");
    assert_eq!(clbd.amount.value, "50.00");
    assert_eq!(clbd.cdt_dbt_ind.as_deref(), Some("DBIT"));
}

#[test]
fn balances_from_statement_skips_absent_balances() {
    let stmt = Statement::new(
        "ACC".to_string(),
        None,
        Currency::EUR,
        None,
        None,
        Vec::new(),
        ymd(2023, 1, 1),
        ymd(2023, 1, 31),
    );

    let balances = balances_from_statement(&stmt, "EUR");
    assert!(balances.is_empty());
}

#[test]
fn entry_from_transaction_credit_with_description() {
    let tx = Transaction::new(
        ymd(2023, 4, 19),
        None,
        12345,
        Direction::Credit,
        "Test payment".to_string(),
        None,
        None,
    );

    let entry = entry_from_transaction(&tx, "EUR");

    assert_eq!(entry.amount.currency, "EUR");
    assert_eq!(entry.amount.value, "123.45");
    assert_eq!(entry.cdt_dbt_ind, "CRDT");

    assert_eq!(entry.booking_date.date, "2023-04-19");
    assert_eq!(entry.value_date.date, "2023-04-19");

    let details = entry.details.expect("details must be present");
    assert_eq!(details.tx_details.len(), 1);

    let tx_dtls = &details.tx_details[0];
    let rmt_inf = tx_dtls.rmt_inf.as_ref().expect("rmt_inf must be present");
    assert_eq!(rmt_inf.unstructured, vec!["Test payment".to_string()]);
}

#[test]
fn entry_from_transaction_debit_without_description() {
    let tx = Transaction::new(
        ymd(2023, 4, 20),
        Some(ymd(2023, 4, 21)),
        500,
        Direction::Debit,
        "".to_string(),
        None,
        None,
    );

    let entry = entry_from_transaction(&tx, "RUB");

    assert_eq!(entry.amount.currency, "RUB");
    assert_eq!(entry.amount.value, "5.00");
    assert_eq!(entry.cdt_dbt_ind, "DBIT");

    assert_eq!(entry.booking_date.date, "2023-04-20");
    assert_eq!(entry.value_date.date, "2023-04-21");

    let details = entry.details.expect("details must be present");
    assert_eq!(details.tx_details.len(), 1);
    let tx_dtls = &details.tx_details[0];
    assert!(tx_dtls.rmt_inf.is_none());
}

#[test]
fn entries_from_transactions_maps_all_transactions() {
    let tx1 = Transaction::new(
        ymd(2023, 1, 10),
        None,
        10000,
        Direction::Credit,
        "First".to_string(),
        None,
        None,
    );

    let tx2 = Transaction::new(
        ymd(2023, 1, 11),
        None,
        2500,
        Direction::Debit,
        "Second".to_string(),
        None,
        None,
    );

    let entries = entries_from_transactions(&[tx1, tx2], "EUR");
    assert_eq!(entries.len(), 2);

    assert_eq!(entries[0].amount.value, "100.00");
    assert_eq!(entries[0].cdt_dbt_ind, "CRDT");

    assert_eq!(entries[1].amount.value, "25.00");
    assert_eq!(entries[1].cdt_dbt_ind, "DBIT");
}
