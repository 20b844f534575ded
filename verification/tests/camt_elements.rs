use parser::camt053::models::{
    Camt053Account, Camt053AccountId, Camt053Balance, Camt053BalanceCodeOrProprietary,
    Camt053BalanceType, Camt053Entry, Camt053Period, Camt053Statement, CamtAccount, CamtAccountId,
    CamtAmtXml, CamtDateXml, CamtParty, CamtRelatedParties, CamtRemittanceInfo, CamtTxDtls,
};
use parser::camt053::utils::{
    balance_from_camt, counterparty_from_tx, description_from_tx, detect_currency, detect_period,
    extract_balances, parse_camt_date_to_naive,
};
use parser::date::Date;
use parser::error::ParseError;
use parser::model::{Currency, Direction};
fn empty_statement() -> Camt053Statement {
    Camt053Statement {
        account: Camt053Account {
            id: Camt053AccountId { iban: None },
            name: None,
            currency: None,
        },
        ..Default::default()
    }
}


#[test]
fn detect_currency_prefers_account_currency() {
    let mut stmt = empty_statement();
    stmt.account.currency = Some("EUR".to_string());

    let ccy = detect_currency(&stmt).unwrap();
    assert_eq!(ccy, Currency::EUR);
}

#[test]
fn detect_currency_uses_balance_if_no_account_currency() {
    let mut stmt = empty_statement();

    let bal = Camt053Balance {
        balance_type: Camt053BalanceType {
            code_or_proprietary: Camt053BalanceCodeOrProprietary { code: None },
        },
        amount: CamtAmtXml {
            currency: "USD".to_string(),
            value: "100.00".to_string(),
        },
        cdt_dbt_ind: Some("CRDT".to_string()),
        date: None,
    };

    stmt.balances.push(bal);

    let ccy = detect_currency(&stmt).unwrap();
    assert_eq!(ccy, Currency::USD);
}

#[test]
fn detect_currency_uses_entry_if_no_account_and_balances() {
    let mut stmt = empty_statement();

    let entry = Camt053Entry {
        amount: CamtAmtXml {
            currency: "CNY".to_string(),
            value: "50.00".to_string(),
        },
        ..Default::default()
    };

    stmt.entries.push(entry);

    let ccy = detect_currency(&stmt).unwrap();
    assert_eq!(ccy, Currency::CNY);
}

#[test]
fn detect_currency_fails_if_no_sources() {
    let stmt = empty_statement();
    let err = detect_currency(&stmt).unwrap_err();

    match err {
        ParseError::InvalidCurrency(msg) => {
            assert!(msg.contains("no currency found"));
        }
        other => panic!("unexpected error: {other:?}"),
    }
}


#[test]
fn balance_from_camt_parses_credit_as_positive() {
    let bal = Camt053Balance {
        balance_type: Camt053BalanceType {
            code_or_proprietary: Camt053BalanceCodeOrProprietary { code: None },
        },
        amount: CamtAmtXml {
            currency: "EUR".to_string(),
            value: "123.45".to_string(),
        },
        cdt_dbt_ind: Some("CRDT".to_string()),
        date: None,
    };

    let value = balance_from_camt(&bal).unwrap();
    assert!(value > 0, "credit balance should be positive, got {value}");
}

#[test]
fn balance_from_camt_parses_debit_as_negative() {
    let bal = Camt053Balance {
        balance_type: Camt053BalanceType {
            code_or_proprietary: Camt053BalanceCodeOrProprietary { code: None },
        },
        amount: CamtAmtXml {
            currency: "EUR".to_string(),
            value: "123.45".to_string(),
        },
        cdt_dbt_ind: Some("DBIT".to_string()),
        date: None,
    };

    let value = balance_from_camt(&bal).unwrap();
    assert!(value < 0, "debit balance should be negative, got {value}");
}

#[test]
fn balance_from_camt_fails_on_unknown_direction() {
    let bal = Camt053Balance {
        balance_type: Camt053BalanceType {
            code_or_proprietary: Camt053BalanceCodeOrProprietary { code: None },
        },
        amount: CamtAmtXml {
            currency: "EUR".to_string(),
            value: "10.00".to_string(),
        },
        cdt_dbt_ind: Some("SOMETHING".to_string()),
        date: None,
    };

    let err = balance_from_camt(&bal).unwrap_err();
    match err {
        ParseError::InvalidAmount(msg) => {
            assert!(msg.contains("unknown CdtDbtInd"));
        }
        other => panic!("unexpected error: {other:?}"),
    }
}

#[test]
fn balance_from_camt_credit_exact_minor_units() {
    let bal = Camt053Balance {
        balance_type: Camt053BalanceType {
            code_or_proprietary: Camt053BalanceCodeOrProprietary { code: None },
        },
        amount: CamtAmtXml {
            currency: "EUR".to_string(),
            value: "123.45".to_string(),
        },
        cdt_dbt_ind: Some("CRDT".to_string()),
        date: None,
    };

    let value = balance_from_camt(&bal).unwrap();
    assert_eq!(value, 12_345);
}

#[test]
fn balance_from_camt_debit_exact_minor_units() {
    let bal = Camt053Balance {
        balance_type: Camt053BalanceType {
            code_or_proprietary: Camt053BalanceCodeOrProprietary { code: None },
        },
        amount: CamtAmtXml {
            currency: "EUR".to_string(),
            value: "987.65".to_string(),
        },
        cdt_dbt_ind: Some("DBIT".to_string()),
        date: None,
    };

    let value = balance_from_camt(&bal).unwrap();
    assert_eq!(value, -98_765);
}


#[test]
fn extract_balances_selects_opening_and_closing_by_code() {
    let mut stmt = empty_statement();

    let opening_bal = Camt053Balance {
        balance_type: Camt053BalanceType {
            code_or_proprietary: Camt053BalanceCodeOrProprietary {
                code: Some("OPBD".to_string()),
            },
        },
        amount: CamtAmtXml {
            currency: "EUR".to_string(),
            value: "100.00".to_string(),
        },
        cdt_dbt_ind: Some("CRDT".to_string()),
        date: None,
    };

    let closing_bal = Camt053Balance {
        balance_type: Camt053BalanceType {
            code_or_proprietary: Camt053BalanceCodeOrProprietary {
                code: Some("CLBD".to_string()),
            },
        },
        amount: CamtAmtXml {
            currency: "EUR".to_string(),
            value: "200.00".to_string(),
        },
        cdt_dbt_ind: Some("CRDT".to_string()),
        date: None,
    };

    stmt.balances.push(opening_bal);
    stmt.balances.push(closing_bal);

    let (opening, closing) = extract_balances(&stmt);

    assert!(opening.is_some());
    assert!(closing.is_some());
}

#[test]
fn extract_balances_ignores_unknown_balance_types() {
    let mut stmt = empty_statement();

    let other_bal = Camt053Balance {
        balance_type: Camt053BalanceType {
            code_or_proprietary: Camt053BalanceCodeOrProprietary {
                code: Some("INFO".to_string()),
            },
        },
        amount: CamtAmtXml {
            currency: "EUR".to_string(),
            value: "999.99".to_string(),
        },
        cdt_dbt_ind: Some("CRDT".to_string()),
        date: None,
    };

    stmt.balances.push(other_bal);

    let (opening, closing) = extract_balances(&stmt);

    assert!(opening.is_none());
    assert!(closing.is_none());
}


#[test]
fn parse_camt_date_handles_plain_date() {
    let d = parse_camt_date_to_naive("2023-04-20").unwrap();
    assert_eq!(d, Date::from_ymd_opt(2023, 4, 20).unwrap());
}

#[test]
fn parse_camt_date_handles_datetime() {
    let d = parse_camt_date_to_naive("2023-04-20T23:59:59").unwrap();
    assert_eq!(d, Date::from_ymd_opt(2023, 4, 20).unwrap());
}

#[test]
fn parse_camt_date_fails_on_invalid_string() {
    let err = parse_camt_date_to_naive("not-a-date").unwrap_err();
    match err {
        ParseError::BadInput(msg) => {
            assert!(msg.contains("invalid CAMT date"));
        }
        other => panic!("unexpected error: {other:?}"),
    }
}


#[test]
fn detect_period_uses_explicit_period_if_present() {
    let mut stmt = empty_statement();
    stmt.period = Some(Camt053Period {
        from: Some("2023-01-01T00:00:00".to_string()),
        to: Some("2023-01-31T23:59:59".to_string()),
    });

    let (from, to) = detect_period(&stmt).unwrap();

    assert_eq!(from, Date::from_ymd_opt(2023, 1, 1).unwrap());
    assert_eq!(to, Date::from_ymd_opt(2023, 1, 31).unwrap());
}

#[test]
fn detect_period_falls_back_to_min_max_entry_dates() {
    let mut stmt = empty_statement();

    stmt.entries.push(Camt053Entry {
        booking_date: CamtDateXml {
            date: "2023-02-10".to_string(),
        },
        ..Default::default()
    });

    stmt.entries.push(Camt053Entry {
        booking_date: CamtDateXml {
            date: "2023-02-15".to_string(),
        },
        ..Default::default()
    });

    stmt.entries.push(Camt053Entry {
        booking_date: CamtDateXml {
            date: "2023-02-05".to_string(),
        },
        ..Default::default()
    });

    let (from, to) = detect_period(&stmt).unwrap();

    assert_eq!(from, Date::from_ymd_opt(2023, 2, 5).unwrap());
    assert_eq!(to, Date::from_ymd_opt(2023, 2, 15).unwrap());
}

#[test]
fn detect_period_fails_if_no_period_and_no_entries() {
    let stmt = empty_statement();
    let err = detect_period(&stmt).unwrap_err();

    match err {
        ParseError::BadInput(msg) => {
            assert!(msg.contains("missing camt statement period"));
        }
        other => panic!("unexpected error: {other:?}"),
    }
}


fn make_party(name: &str) -> CamtParty {
    CamtParty {
        name: Some(name.to_string()),
        postal_address: None,
        id: None,
    }
}

fn make_account(iban: &str) -> CamtAccount {
    CamtAccount {
        id: CamtAccountId {
            iban: Some(iban.to_string()),
        },
    }
}

#[test]
fn counterparty_from_tx_prefers_ultimate_creditor_for_debit() {
    let parties = CamtRelatedParties {
        ultimate_creditor: Some(make_party("Ultimate Creditor")),
        creditor: Some(make_party("Normal Creditor")),
        creditor_account: Some(make_account("CRED_IBAN")),
        ..Default::default()
    };

    let tx = CamtTxDtls {
        related_parties: Some(parties),
        ..Default::default()
    };

    let (cp_id, cp_name) = counterparty_from_tx(&tx, Direction::Debit);

    assert_eq!(cp_id, Some("CRED_IBAN".to_string()));
    assert_eq!(cp_name, Some("Ultimate Creditor".to_string()));
}

#[test]
fn counterparty_from_tx_prefers_ultimate_debtor_for_credit() {
    let parties = CamtRelatedParties {
        ultimate_debtor: Some(make_party("Ultimate Debtor")),
        debtor: Some(make_party("Normal Debtor")),
        debtor_account: Some(make_account("DEBT_IBAN")),
        ..Default::default()
    };

    let tx = CamtTxDtls {
        related_parties: Some(parties),
        ..Default::default()
    };

    let (cp_id, cp_name) = counterparty_from_tx(&tx, Direction::Credit);

    assert_eq!(cp_id, Some("DEBT_IBAN".to_string()));
    assert_eq!(cp_name, Some("Ultimate Debtor".to_string()));
}

#[test]
fn counterparty_from_tx_uses_non_ultimate_if_ultimate_missing() {
    let parties = CamtRelatedParties {
        creditor: Some(make_party("Creditor Only")),
        creditor_account: Some(make_account("CRED_ONLY_IBAN")),
        ..Default::default()
    };

    let tx = CamtTxDtls {
        related_parties: Some(parties),
        ..Default::default()
    };

    let (cp_id, cp_name) = counterparty_from_tx(&tx, Direction::Debit);

    assert_eq!(cp_id, Some("CRED_ONLY_IBAN".to_string()));
    assert_eq!(cp_name, Some("Creditor Only".to_string()));
}

#[test]
fn counterparty_from_tx_returns_none_if_no_related_parties() {
    let tx = CamtTxDtls {
        related_parties: None,
        ..Default::default()
    };

    let (cp_id, cp_name) = counterparty_from_tx(&tx, Direction::Credit);

    assert!(cp_id.is_none());
    assert!(cp_name.is_none());
}


#[test]
fn description_from_tx_joins_unstructured_with_newlines() {
    let rmt = CamtRemittanceInfo {
        unstructured: vec![
            "Line 1".to_string(),
            "Line 2".to_string(),
            "Line 3".to_string(),
        ],
        structured: vec![],
    };

    let tx = CamtTxDtls {
        rmt_inf: Some(rmt),
        ..Default::default()
    };

    let desc = description_from_tx(&tx);

    assert_eq!(desc, "Line 1\nLine 2\nLine 3");
}

#[test]
fn description_from_tx_is_empty_if_no_remittance() {
    let tx = CamtTxDtls {
        rmt_inf: None,
        ..Default::default()
    };

    let desc = description_from_tx(&tx);
    assert_eq!(desc, "");
}

#[test]
fn description_from_tx_is_empty_if_unstructured_empty() {
    let rmt = CamtRemittanceInfo {
        unstructured: vec![],
        structured: vec![],
    };

    let tx = CamtTxDtls {
        rmt_inf: Some(rmt),
        ..Default::default()
    };

    let desc = description_from_tx(&tx);
    assert_eq!(desc, "");
}
