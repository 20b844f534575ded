use parser::date::Date;
use parser::error::ParseError;
use parser::model::{Currency, Direction, Statement, Transaction};
use parser::mt940::{
    build_description, extract_counterparty_from_mt940, parse_balance, Mt940Data, Mt940Entry,
    Mt940EntryInfo, Mt940Message,
};

#[test]
fn parse_balance_parses_valid_credit_balance() {
    let bal = parse_balance("C230101EUR123,45").unwrap();

    assert_eq!(bal.dc_mark, 'C');
    assert_eq!(bal.date, "230101");
    assert_eq!(bal.currency, "EUR");
    assert_eq!(bal.amount, "123,45");
}

#[test]
fn parse_balance_parses_valid_debit_balance() {
    let bal = parse_balance("D250218USD1000,00").unwrap();

    assert_eq!(bal.dc_mark, 'D');
    assert_eq!(bal.date, "250218");
    assert_eq!(bal.currency, "USD");
    assert_eq!(bal.amount, "1000,00");
}

#[test]
fn parse_balance_errors_on_too_short_value() {
    let err = parse_balance("C2301").unwrap_err();
    match err {
        ParseError::BadInput(msg) => {
            assert!(msg.contains("too short"), "unexpected msg: {msg}");
        }
        other => panic!("expected BadInput, got {other:?}"),
    }
}


#[test]
fn from_61_line_parses_minimal_line_with_entry_date() {
    let raw = ":61:2301010102C100,00";
    let entry = Mt940Entry::from_61_line("2301010102C100,00", raw.to_string()).unwrap();

    assert_eq!(entry.raw_61, raw);
    assert_eq!(entry.value_date, "230101");
    assert_eq!(entry.entry_date.as_deref(), Some("0102"));
    assert_eq!(entry.dc_mark, 'C');
    assert_eq!(entry.funds_code, None);
    assert_eq!(entry.amount, "100,00");
    assert!(entry.transaction_type.is_none());
    assert!(entry.customer_reference.is_none());
    assert!(entry.bank_reference.is_none());
    assert!(entry.extra_details.is_none());
}

#[test]
fn from_61_line_parses_line_with_type_and_references_and_extra() {
    let value = "2301010102D250,00NTRFREF123//BANKREF some extra text";
    let raw = format!(":61:{value}");

    let entry = Mt940Entry::from_61_line(value, raw.clone()).unwrap();

    assert_eq!(entry.raw_61, raw);
    assert_eq!(entry.value_date, "230101");
    assert_eq!(entry.entry_date.as_deref(), Some("0102"));
    assert_eq!(entry.dc_mark, 'D');
    assert_eq!(entry.amount, "250,00");
    assert_eq!(entry.transaction_type.as_deref(), Some("NTRF"));
    assert_eq!(entry.customer_reference.as_deref(), Some("REF123"));
    assert_eq!(entry.bank_reference.as_deref(), Some("BANKREF"));
    assert_eq!(entry.extra_details.as_deref(), Some("some extra text"));
}

#[test]
fn from_61_line_errors_when_no_amount() {
    let value = "230101CXXXX";
    let raw = format!(":61:{value}");

    let err = Mt940Entry::from_61_line(value, raw).unwrap_err();
    match err {
        ParseError::BadInput(msg) => {
            assert!(
                msg.contains("no amount found in :61"),
                "unexpected msg: {msg}"
            );
        }
        other => panic!("expected BadInput, got {other:?}"),
    }
}


#[test]
fn build_description_joins_all_parts() {
    let mut entry = Mt940Entry {
        raw_61: ":61:2301010102C100,00NTRFREF123//BANKREF".to_string(),
        value_date: "230101".to_string(),
        entry_date: Some("0102".to_string()),
        dc_mark: 'C',
        funds_code: None,
        amount: "100,00".to_string(),
        transaction_type: Some("NTRF".to_string()),
        customer_reference: Some("REF123".to_string()),
        bank_reference: Some("BANKREF".to_string()),
        extra_details: Some("EXTRA".to_string()),
        info: Mt940EntryInfo {
            lines: vec!["Line1".to_string(), "Line2".to_string()],
        },
    };

    let desc = build_description(&entry);

    assert_eq!(desc, "NTRF | REF123 | //BANKREF | EXTRA | Line1 Line2");

    entry.transaction_type = None;
    entry.customer_reference = None;
    entry.bank_reference = None;
    entry.extra_details = None;
    entry.info.lines.clear();

    let desc2 = build_description(&entry);
    assert_eq!(desc2, entry.raw_61);
}


#[test]
fn extract_counterparty_prefers_info_lines() {
    let entry = Mt940Entry {
        raw_61: String::new(),
        value_date: "230101".to_string(),
        entry_date: None,
        dc_mark: 'C',
        funds_code: None,
        amount: "10,00".to_string(),
        transaction_type: None,
        customer_reference: None,
        bank_reference: None,
        extra_details: None,
        info: Mt940EntryInfo {
            lines: vec![
                "Some text".to_string(),
                "DE89370400440532013000 JOHN DOE".to_string(),
            ],
        },
    };

    let (cp, name) = extract_counterparty_from_mt940(&entry);

    assert_eq!(cp.as_deref(), Some("DE89370400440532013000"));
    assert!(name.is_some());
}

#[test]
fn extract_counterparty_uses_customer_reference_if_no_info_lines() {
    let entry = Mt940Entry {
        raw_61: String::new(),
        value_date: "230101".to_string(),
        entry_date: None,
        dc_mark: 'C',
        funds_code: None,
        amount: "10,00".to_string(),
        transaction_type: None,
        customer_reference: Some("PAYMENT DE89370400440532013000 JOHN DOE".to_string()),
        bank_reference: None,
        extra_details: None,
        info: Mt940EntryInfo { lines: vec![] },
    };

    let (cp, name) = extract_counterparty_from_mt940(&entry);

    assert_eq!(cp.as_deref(), Some("DE89370400440532013000"));
    assert!(name.is_some());
}

#[test]
fn extract_counterparty_returns_none_when_not_found() {
    let entry = Mt940Entry {
        raw_61: String::new(),
        value_date: "230101".to_string(),
        entry_date: None,
        dc_mark: 'C',
        funds_code: None,
        amount: "10,00".to_string(),
        transaction_type: None,
        customer_reference: Some("NO_IBAN_HERE".to_string()),
        bank_reference: None,
        extra_details: None,
        info: Mt940EntryInfo {
            lines: vec!["Just text".to_string()],
        },
    };

    let (cp, name) = extract_counterparty_from_mt940(&entry);

    assert!(cp.is_none());
    assert!(name.is_none());
}


#[test]
fn mt940_entry_to_transaction_credit() {
    let entry = Mt940Entry {
        raw_61: ":61:2301010102C100,00".to_string(),
        value_date: "230101".to_string(),
        entry_date: Some("0102".to_string()),
        dc_mark: 'C',
        funds_code: None,
        amount: "100,00".to_string(),
        transaction_type: Some("NTRF".to_string()),
        customer_reference: Some("REF".to_string()),
        bank_reference: None,
        extra_details: None,
        info: Mt940EntryInfo {
            lines: vec!["Desc".to_string()],
        },
    };

    let tx = Transaction::try_from(&entry).unwrap();

    assert_eq!(tx.direction, Direction::Credit);
    assert_eq!(tx.amount, 10_000);

    assert_eq!(
        tx.value_date,
        Some(Date::from_ymd_opt(2023, 1, 1).unwrap())
    );

    assert_eq!(
        tx.booking_date,
        Date::from_ymd_opt(2023, 1, 2).unwrap()
    );

    assert!(!tx.description.is_empty());
}

#[test]
fn mt940_entry_to_transaction_debit() {
    let entry = Mt940Entry {
        raw_61: ":61:230101D50,00".to_string(),
        value_date: "230101".to_string(),
        entry_date: None,
        dc_mark: 'D',
        funds_code: None,
        amount: "50,00".to_string(),
        transaction_type: None,
        customer_reference: None,
        bank_reference: None,
        extra_details: None,
        info: Mt940EntryInfo { lines: vec![] },
    };

    let tx = Transaction::try_from(&entry).unwrap();

    assert_eq!(tx.direction, Direction::Debit);
    assert_eq!(tx.amount, 5_000);
}

#[test]
fn mt940_entry_to_transaction_errors_on_unknown_direction() {
    let entry = Mt940Entry {
        raw_61: ":61:230101X100,00".to_string(),
        value_date: "230101".to_string(),
        entry_date: None,
        dc_mark: 'X',
        funds_code: None,
        amount: "100,00".to_string(),
        transaction_type: None,
        customer_reference: None,
        bank_reference: None,
        extra_details: None,
        info: Mt940EntryInfo { lines: vec![] },
    };

    let err = Transaction::try_from(&entry).unwrap_err();
    match err {
        ParseError::InvalidAmount(msg) => {
            assert!(msg.contains("unknown direction"), "unexpected msg: {msg}");
        }
        other => panic!("expected InvalidAmount, got {other:?}"),
    }
}


#[test]
fn mt940_message_from_string_lines_parses_basic_message() {
    let lines = vec![
        ":20:REF123".to_string(),
        ":25:DE11112222333344445555".to_string(),
        ":28C:1/1".to_string(),
        ":60F:C230101EUR100,00".to_string(),
        ":61:2301020102C50,00NTRFREF//BANK".to_string(),
        ":86:Payment text".to_string(),
        ":62F:C230103EUR150,00".to_string(),
    ];

    let msg = Mt940Message::from_string_lines(&lines).unwrap();

    assert_eq!(msg.transaction_reference.as_deref(), Some("REF123"));
    assert_eq!(msg.account_id, "DE11112222333344445555");
    assert_eq!(msg.statement_number.as_deref(), Some("1/1"));

    assert_eq!(msg.opening_balance.dc_mark, 'C');
    assert_eq!(msg.opening_balance.date, "230101");
    assert_eq!(msg.opening_balance.currency, "EUR");
    assert_eq!(msg.opening_balance.amount, "100,00");

    assert_eq!(msg.entries.len(), 1);
    assert!(msg.closing_balance.is_some());
}

#[test]
fn mt940_message_from_string_lines_requires_account_and_opening_balance() {
    let lines_missing_25 = vec![":20:REF".to_string(), ":60F:C230101EUR100,00".to_string()];

    let err = Mt940Message::from_string_lines(&lines_missing_25).unwrap_err();
    match err {
        ParseError::BadInput(msg) => {
            assert!(msg.contains("missing :25"), "unexpected msg: {msg}");
        }
        other => panic!("expected BadInput, got {other:?}"),
    }

    let lines_missing_60 = vec![":20:REF".to_string(), ":25:ACC".to_string()];

    let err = Mt940Message::from_string_lines(&lines_missing_60).unwrap_err();
    match err {
        ParseError::BadInput(msg) => {
            assert!(
                msg.contains("missing opening balance"),
                "unexpected msg: {msg}"
            );
        }
        other => panic!("expected BadInput, got {other:?}"),
    }
}


#[test]
fn mt940_message_to_statement_maps_basic_fields() {
    let lines = vec![
        ":20:REF123".to_string(),
        ":25:DE11112222333344445555".to_string(),
        ":60F:C230101EUR100,00".to_string(),
        ":61:2301020102C50,00NTRFREF//BANK".to_string(),
        ":62F:D230103EUR80,00".to_string(),
    ];

    let msg = Mt940Message::from_string_lines(&lines).unwrap();
    let stmt = Statement::try_from(msg).unwrap();

    assert_eq!(stmt.account_id, "DE11112222333344445555");
    assert_eq!(stmt.account_name, None);
    assert_eq!(stmt.currency, Currency::EUR);

    assert_eq!(stmt.opening_balance, Some(10_000));

    assert_eq!(stmt.closing_balance, Some(-8_000));

    assert_eq!(stmt.transactions.len(), 1);

    assert_eq!(
        stmt.period_from,
        Date::from_ymd_opt(2023, 1, 1).unwrap()
    );
    assert_eq!(
        stmt.period_until,
        Date::from_ymd_opt(2023, 1, 3).unwrap()
    );
}

#[test]
fn mt940_message_to_statement_errors_on_unknown_dc_mark_in_balances() {
    let lines = vec![":25:ACC".to_string(), ":60F:X230101EUR100,00".to_string()];

    let msg = Mt940Message::from_string_lines(&lines).unwrap();
    let err = Statement::try_from(msg).unwrap_err();

    match err {
        ParseError::InvalidAmount(msg) => {
            assert!(
                msg.contains("unknown opening balance direction"),
                "unexpected msg: {msg}"
            );
        }
        other => panic!("expected InvalidAmount, got {other:?}"),
    }
}

#[test]
fn mt940_message_to_statement_opening_debit_becomes_negative() {
    let lines = vec![
        ":20:REF".to_string(),
        ":25:DE11112222333344445555".to_string(),
        ":60F:D230101EUR100,00".to_string(),
    ];

    let msg = Mt940Message::from_string_lines(&lines).unwrap();
    let stmt = Statement::try_from(msg).unwrap();

    assert_eq!(stmt.opening_balance, Some(-10_000));
}


#[test]
fn mt940_data_parse_parses_single_block_curly() {
    let input = r#"{1:F01FOOBARBAXXX0000000000}
    {2:O940...}
    {4:
    :20:REF123
    :25:DE11112222333344445555
    :60F:C230101EUR100,00
    :61:2301020102C50,00NTRFREF//BANK
    :62F:C230103EUR150,00
    -}
    "#;

    let data = Mt940Data::parse(input).unwrap();
    let stmt = Statement::try_from(data).unwrap();

    assert_eq!(stmt.account_id, "DE11112222333344445555");
    assert_eq!(stmt.currency, Currency::EUR);
    assert_eq!(stmt.opening_balance, Some(10_000));
    assert_eq!(stmt.closing_balance, Some(15_000));
    assert_eq!(stmt.transactions.len(), 1);
}

#[test]
fn mt940_data_parse_errors_on_empty_input() {
    let err = Mt940Data::parse("").unwrap_err();
    match err {
        ParseError::BadInput(msg) => {
            assert!(msg.contains("0 mt940 messages"), "unexpected msg: {msg}");
        }
        other => panic!("expected BadInput, got {other:?}"),
    }
}
