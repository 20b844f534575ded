use parser::csv_parser::utils::{
    extract_account_and_name, extract_counterparty_account, find_col, is_footer_row,
    parse_amount_and_direction, parse_footer_balance, parse_rus_date,
};
use parser::date::Date;
use parser::error::ParseError;
use parser::model::Direction;

fn row_with_debit_credit(debit: &str, credit: &str) -> Vec<String> {
    let mut fields = vec![String::new(); 12];
    fields[7] = debit.to_string();
    fields[11] = credit.to_string();
    fields
}

fn cells_of(fields: Vec<&str>) -> Vec<String> {
    let mut row = Vec::new();
    for f in fields {
        row.push(f.to_string());
    }
    row
}


#[test]
fn parse_footer_balance_uses_debit_when_non_zero() {
    let row = row_with_debit_credit("100", "0,00");
    let balance = parse_footer_balance(&row).unwrap();
    assert_eq!(balance, -10000);
}

#[test]
fn parse_footer_balance_uses_credit_when_debit_zero() {
    let row = row_with_debit_credit("0,00", "100");
    let balance = parse_footer_balance(&row).unwrap();
    assert_eq!(balance, 10000);
}

#[test]
fn parse_footer_balance_treats_zero_and_empty_as_zero() {
    let row = row_with_debit_credit("", "0.00");
    let balance = parse_footer_balance(&row).unwrap();
    assert_eq!(balance, 0);
}

#[test]
fn parse_footer_balance_handles_comma_fraction_in_debit() {
    let row = row_with_debit_credit("100,50", "0,00");
    let balance = parse_footer_balance(&row).unwrap();
    assert_eq!(balance, -10050);
}

#[test]
fn parse_footer_balance_handles_dot_fraction_in_debit() {
    let row = row_with_debit_credit("123.45", "0.00");
    let balance = parse_footer_balance(&row).unwrap();
    assert_eq!(balance, -12345);
}

#[test]
fn parse_footer_balance_handles_comma_fraction_in_credit() {
    let row = row_with_debit_credit("0,00", "250,75");
    let balance = parse_footer_balance(&row).unwrap();
    assert_eq!(balance, 25075);
}

#[test]
fn parse_footer_balance_handles_dot_fraction_in_credit() {
    let row = row_with_debit_credit("0.00", "999.99");
    let balance = parse_footer_balance(&row).unwrap();
    assert_eq!(balance, 99999);
}

#[test]
fn parse_footer_balance_treats_both_empty_as_zero() {
    let row = row_with_debit_credit("   ", "   ");
    let balance = parse_footer_balance(&row).unwrap();
    assert_eq!(balance, 0);
}


#[test]
fn extract_account_and_name_picks_1st_and_3rd_nonempty_lines() {
    let block = r#"
        40802810000000000001
        (ignored)
        ООО "Рога и Копыта"
        ещё что-то
    "#;

    let (account, name) = extract_account_and_name(block);
    assert_eq!(account.as_deref(), Some("40802810000000000001"));
    assert_eq!(name.as_deref(), Some("ООО \"Рога и Копыта\""));
}

#[test]
fn extract_account_and_name_returns_none_if_not_enough_lines() {
    let block = "40802810000000000001\n";
    let (account, name) = extract_account_and_name(block);
    assert_eq!(account.as_deref(), Some("40802810000000000001"));
    assert_eq!(name, None);
}


#[test]
fn extract_counterparty_account_when_our_account_in_debit() {
    let our_account = "OUR_ACC";

    let debit_block = r#"
        OUR_ACC
        something
        Наше юрлицо
    "#;

    let credit_block = r#"
        CP_ACC
        something
        Контрагент
    "#;

    let (cp_acc, cp_name) =
        extract_counterparty_account(debit_block, credit_block, our_account);

    assert_eq!(cp_acc.as_deref(), Some("CP_ACC"));
    assert_eq!(cp_name.as_deref(), Some("Контрагент"));
}

#[test]
fn extract_counterparty_account_when_our_account_in_credit() {
    let our_account = "OUR_ACC";

    let debit_block = r#"
        CP_ACC
        something
        Контрагент
    "#;

    let credit_block = r#"
        OUR_ACC
        something
        Наше юрлицо
    "#;

    let (cp_acc, cp_name) =
        extract_counterparty_account(debit_block, credit_block, our_account);

    assert_eq!(cp_acc.as_deref(), Some("CP_ACC"));
    assert_eq!(cp_name.as_deref(), Some("Контрагент"));
}

#[test]
fn extract_counterparty_account_returns_none_if_our_account_missing() {
    let our_account = "OUR_ACC";

    let debit_block = r#"
        OTHER1
        something
        Кто-то
    "#;

    let credit_block = r#"
        OTHER2
        something
        Кто-то ещё
    "#;

    let (cp_acc, cp_name) =
        extract_counterparty_account(debit_block, credit_block, our_account);

    assert!(cp_acc.is_none());
    assert!(cp_name.is_none());
}


#[test]
fn parse_amount_and_direction_debit_only() {
    let res = parse_amount_and_direction(Some("100"), None).unwrap();
    assert_eq!(res.0, 10000);
    assert_eq!(res.1, Direction::Debit);
}

#[test]
fn parse_amount_and_direction_credit_only() {
    let res = parse_amount_and_direction(None, Some("200")).unwrap();
    assert_eq!(res.0, 20000);
    assert_eq!(res.1, Direction::Credit);
}

#[test]
fn parse_amount_and_direction_trims_whitespace() {
    let res = parse_amount_and_direction(Some("  300  "), None).unwrap();
    assert_eq!(res.0, 30000);
    assert_eq!(res.1, Direction::Debit);
}

#[test]
fn parse_amount_and_direction_conflict_both_sides_filled() {
    let res = parse_amount_and_direction(Some("100"), Some("200"));
    assert!(matches!(res, Err(ParseError::AmountSideConflict)));
}

#[test]
fn parse_amount_and_direction_conflict_both_empty() {
    let res = parse_amount_and_direction(Some("  "), Some(" "));
    assert!(matches!(res, Err(ParseError::AmountSideConflict)));
}


#[test]
fn is_footer_row_detects_known_footer_markers() {
    let r1 = cells_of(vec!["", "б/с", ""]);
    let r2 = cells_of(vec!["Количество операций всего"]);
    let r3 = cells_of(vec!["Входящий остаток на начало дня"]);
    let r4 = cells_of(vec!["Исходящий остаток на конец дня"]);
    let r5 = cells_of(vec!["Итого оборотов за день"]);

    assert!(is_footer_row(&r1));
    assert!(is_footer_row(&r2));
    assert!(is_footer_row(&r3));
    assert!(is_footer_row(&r4));
    assert!(is_footer_row(&r5));
}

#[test]
fn is_footer_row_returns_false_for_regular_row() {
    let r = cells_of(vec!["Дата", "Описание", "Сумма"]);
    assert!(!is_footer_row(&r));
}


#[test]
fn find_col_exact_match() {
    let row = cells_of(vec!["Дата", "Номер", "Описание операции"]);
    let idx = find_col(&row, "Описание операции").unwrap();
    assert_eq!(idx, 2);
}

#[test]
fn find_col_contains_match_when_no_exact_match() {
    let row = cells_of(vec!["Дата", "Номер", "Описание операции по счёту"]);
    let idx = find_col(&row, "Описание операции").unwrap();
    assert_eq!(idx, 2);
}

#[test]
fn find_col_returns_error_when_not_found() {
    let row = cells_of(vec!["Дата", "Номер", "Описание"]);
    let res = find_col(&row, "Несуществующий заголовок");
    assert!(matches!(res, Err(ParseError::Header(_))));
}


 #[test]
fn parse_rus_date_parses_normal_russian_date_with_g_dot() {
    let d = parse_rus_date("01 января 2023 г.").unwrap();
    assert_eq!(d, Date::from_ymd_opt(2023, 1, 1).unwrap());
}

#[test]
fn parse_rus_date_parses_without_g_or_dot_and_with_extra_spaces() {
    let d = parse_rus_date("  31 декабря 1999   ").unwrap();
    assert_eq!(d, Date::from_ymd_opt(1999, 12, 31).unwrap());

    let d = parse_rus_date("31 декабря 1999 г").unwrap();
    assert_eq!(d, Date::from_ymd_opt(1999, 12, 31).unwrap());

    let d = parse_rus_date("31 декабря 1999.   ").unwrap();
    assert_eq!(d, Date::from_ymd_opt(1999, 12, 31).unwrap());
}

#[test]
fn parse_rus_date_parses_with_mixed_case_month() {
    let d = parse_rus_date("15 Мая 2020 г.").unwrap();
    assert_eq!(d, Date::from_ymd_opt(2020, 5, 15).unwrap());

    let d = parse_rus_date("15 МАЯ 2020").unwrap();
    assert_eq!(d, Date::from_ymd_opt(2020, 5, 15).unwrap());
}

#[test]
fn parse_rus_date_returns_error_when_not_enough_parts() {
    let err = parse_rus_date("января 2023 г.").unwrap_err();
    match err {
        ParseError::Header(msg) => {
            assert!(
                msg.contains("invalid date from string"),
                "unexpected msg: {msg}"
            );
        }
        other => panic!("expected Header error, got {other:?}"),
    }
}

#[test]
fn parse_rus_date_returns_error_on_invalid_ymd() {
    let err = parse_rus_date("xx января 2023 г.").unwrap_err();
    match err {
        ParseError::Header(msg) => {
            assert!(
                msg.contains("invalid day part"),
                "unexpected msg: {msg}"
            );
        }
        other => panic!("expected Header error, got {other:?}"),
    }

    let err = parse_rus_date("01 января xxxx г.").unwrap_err();
    match err {
        ParseError::Header(msg) => {
            assert!(
                msg.contains("invalid year part"),
                "unexpected msg: {msg}"
            );
        }
        other => panic!("expected Header error, got {other:?}"),
    }

    let err = parse_rus_date("01 янвяря 2023 г.").unwrap_err();
    match err {
        ParseError::Header(msg) => {
            assert!(
                msg.contains("unknown month"),
                "unexpected msg: {msg}"
            );
        }
        other => panic!("expected Header error, got {other:?}"),
    }

    let err = parse_rus_date("31 июня 2023 г.").unwrap_err();
    match err {
        ParseError::Header(msg) => {
            assert!(
                msg.contains("invalid date:"),
                "unexpected msg: {msg}"
            );
        }
        other => panic!("expected Header error, got {other:?}"),
    }
}
