use parser::camt053::models::{
    Camt053Account, Camt053AccountId, Camt053Entry, Camt053Statement, CamtAmtXml, CamtDateXml,
};
use parser::camt053::Camt053Data;
use parser::date::Date;
use parser::error::ParseError;
use parser::model::{Currency, Direction, Statement, Transaction};
fn day_of(y: i32, m: u32, day: u32) -> Date {
    Date::from_ymd_opt(y, m, day).unwrap()
}


fn make_simple_entry(cdt_dbt: &str) -> Camt053Entry {
    Camt053Entry {
        amount: CamtAmtXml {
            currency: "EUR".to_string(),
            value: "123.45".to_string(),
        },
        cdt_dbt_ind: cdt_dbt.to_string(),
        booking_date: CamtDateXml {
            date: "2023-01-10".to_string(),
        },
        value_date: CamtDateXml {
            date: "2023-01-11".to_string(),
        },
        details: None,
    }
}

#[test]
fn entry_to_transaction_credit() {
    let entry = make_simple_entry("CRDT");

    let tx = Transaction::try_from(&entry).expect("conversion must succeed");

    assert_eq!(tx.direction, Direction::Credit);
    assert_eq!(tx.amount, 12345);
    assert_eq!(tx.booking_date, day_of(2023, 1, 10));
    assert_eq!(tx.value_date, Some(day_of(2023, 1, 11)));

    assert_eq!(tx.description, "");
    assert!(tx.counterparty.is_none());
    assert!(tx.counterparty_name.is_none());
}

#[test]
fn entry_to_transaction_debit() {
    let entry = make_simple_entry("DBIT");

    let tx = Transaction::try_from(&entry).expect("conversion must succeed");

    assert_eq!(tx.direction, Direction::Debit);
    assert_eq!(tx.amount, 12345);
}

#[test]
fn entry_with_unknown_direction_returns_error() {
    let mut entry = make_simple_entry("CRDT");
    entry.cdt_dbt_ind = "WTF".to_string();

    let err = Transaction::try_from(&entry).unwrap_err();
    match err {
        ParseError::InvalidAmount(msg) => {
            assert!(
                msg.contains("unknown direction"),
                "unexpected message: {msg}"
            );
        }
        other => panic!("expected InvalidAmount, got {other:?}"),
    }
}


fn sample_camt_statement() -> Camt053Statement {
    let entry = Camt053Entry {
        amount: CamtAmtXml {
            currency: "EUR".to_string(),
            value: "10.00".to_string(),
        },
        cdt_dbt_ind: "CRDT".to_string(),
        booking_date: CamtDateXml {
            date: "2023-01-05".to_string(),
        },
        value_date: CamtDateXml {
            date: "2023-01-06".to_string(),
        },
        details: None,
    };

    Camt053Statement {
        id: Some("STMTID".to_string()),
        sequence_number: Some(1),
        created_at: None,
        period: None,
        account: Camt053Account {
            id: Camt053AccountId {
                iban: Some("DE1111222233334444".to_string()),
            },
            name: Some("Sample Account".to_string()),
            currency: Some("EUR".to_string()),
        },
        balances: Vec::new(),
        entries: vec![entry],
    }
}

#[test]
fn statement_from_camt_statement_maps_basic_fields() {
    let camt_stmt = sample_camt_statement();

    let stmt = Statement::try_from(camt_stmt).expect("conversion must succeed");

    assert_eq!(stmt.account_id, "DE1111222233334444");
    assert_eq!(stmt.account_name.as_deref(), Some("Sample Account"));
    assert_eq!(stmt.currency, Currency::EUR);

    assert_eq!(stmt.transactions.len(), 1);
    let tx = &stmt.transactions[0];

    assert_eq!(tx.direction, Direction::Credit);
    assert_eq!(tx.amount, 1000);
    assert_eq!(tx.booking_date, day_of(2023, 1, 5));
    assert_eq!(tx.value_date, Some(day_of(2023, 1, 6)));
}

#[test]
fn statement_from_camt_data_uses_inner_statement() {
    let camt_stmt = sample_camt_statement();
    let data = Camt053Data { statement: camt_stmt };

    let stmt = Statement::try_from(data).expect("conversion must succeed");

    assert_eq!(stmt.account_id, "DE1111222233334444");
    assert_eq!(stmt.transactions.len(), 1);
}

#[test]
fn statement_from_camt_statement_uses_not_provided_when_no_iban() {
    let mut camt_stmt = sample_camt_statement();
    camt_stmt.account.id.iban = None;

    let stmt = Statement::try_from(camt_stmt).expect("conversion must succeed");

    assert_eq!(stmt.account_id, "not provided");
}
