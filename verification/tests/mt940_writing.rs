use parser::date::Date;
use parser::model::{Currency, Direction, Transaction};
use parser::serialization::mt940_helpers::{
    currency_code, format_61_line, format_86_line, format_yymmdd,
};
fn on(y: i32, m: u32, day: u32) -> Date {
    Date::from_ymd_opt(y, m, day).unwrap()
}

#[test]
fn currency_code_known_currencies() {
    assert_eq!(currency_code(&Currency::RUB), "RUB");
    assert_eq!(currency_code(&Currency::EUR), "EUR");
    assert_eq!(currency_code(&Currency::USD), "USD");
    assert_eq!(currency_code(&Currency::CNY), "CNY");
}

#[test]
fn currency_code_other_currency_uses_placeholder() {
    let cur = Currency::Other("ABC".to_string());
    assert_eq!(currency_code(&cur), "XXX");
}

#[test]
fn format_yymmdd_formats_correctly() {
    assert_eq!(format_yymmdd(on(2023, 4, 19)), "230419");
    assert_eq!(format_yymmdd(on(1999, 12, 31)), "991231");
    assert_eq!(format_yymmdd(on(2000, 1, 1)), "000101");
}

fn tx(
    booking_date: Date,
    value_date: Option<Date>,
    amount: u64,
    direction: Direction,
    description: &str,
    counterparty: Option<&str>,
    counterparty_name: Option<&str>,
) -> Transaction {
    Transaction::new(
        booking_date,
        value_date,
        amount,
        direction,
        description.to_string(),
        counterparty.map(|s| s.to_string()),
        counterparty_name.map(|s| s.to_string()),
    )
}

#[test]
fn format_61_line_uses_booking_date_when_value_date_absent() {
    let booking = on(2023, 4, 19);
    let t = tx(
        booking,
        None,
        12_345,
        Direction::Credit,
        "Test",
        None,
        None,
    );

    let line = format_61_line(&t);
    assert_eq!(line, "2304190419C123,45");
}

#[test]
fn format_61_line_uses_separate_value_and_entry_dates() {
    let booking = on(2023, 4, 19);
    let value = on(2023, 4, 18);
    let t = tx(
        booking,
        Some(value),
        500,
        Direction::Debit,
        "Test",
        None,
        None,
    );

    let line = format_61_line(&t);
    assert_eq!(line, "2304180419D5,00");
}

#[test]
fn format_61_line_credit_and_debit_marks() {
    let t_credit = tx(
        on(2023, 1, 1),
        None,
        100,
        Direction::Credit,
        "",
        None,
        None,
    );
    let t_debit = tx(
        on(2023, 1, 1),
        None,
        100,
        Direction::Debit,
        "",
        None,
        None,
    );

    let line_c = format_61_line(&t_credit);
    let line_d = format_61_line(&t_debit);

    assert!(line_c.contains('C'));
    assert!(line_d.contains('D'));
    assert_ne!(line_c, line_d);
}

#[test]
fn format_86_line_returns_none_when_all_empty() {
    let t = tx(
        on(2023, 1, 1),
        None,
        100,
        Direction::Credit,
        "",
        None,
        None,
    );

    assert_eq!(format_86_line(&t), None);
}

#[test]
fn format_86_line_with_only_description() {
    let t = tx(
        on(2023, 1, 1),
        None,
        100,
        Direction::Credit,
        "Just description",
        None,
        None,
    );

    assert_eq!(
        format_86_line(&t),
        Some("Just description".to_string())
    );
}

#[test]
fn format_86_line_with_account_and_name_no_description() {
    let t = tx(
        on(2023, 1, 1),
        None,
        100,
        Direction::Credit,
        "",
        Some("DE89370400440532013000"),
        Some("John Doe"),
    );

    assert_eq!(
        format_86_line(&t),
        Some("DE89370400440532013000 John Doe".to_string())
    );
}

#[test]
fn format_86_line_with_all_parts() {
    let t = tx(
        on(2023, 1, 1),
        None,
        100,
        Direction::Credit,
        "Invoice 123",
        Some("DE89370400440532013000"),
        Some("John Doe"),
    );

    assert_eq!(
        format_86_line(&t),
        Some("DE89370400440532013000 John Doe // Invoice 123".to_string())
    );
}

#[test]
fn format_86_line_trims_parts_and_ignores_empty() {
    let t = tx(
        on(2023, 1, 1),
        None,
        100,
        Direction::Credit,
        "  Desc  ",
        Some("   "),
        Some("  Name  "),
    );

    assert_eq!(
        format_86_line(&t),
        Some("Name // Desc".to_string())
    );
}
