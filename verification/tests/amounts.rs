use parser::error::ParseError;
use parser::model::{Currency, Direction};
use parser::utils::{parse_amount, parse_currency, parse_signed_balance};

#[test]
fn parse_currency_recognizes_rub_variants() {
    assert_eq!(parse_currency("рубль"), Currency::RUB);
    assert_eq!(parse_currency("руб."), Currency::RUB);
    assert_eq!(parse_currency("российский рубль"), Currency::RUB);
    assert_eq!(parse_currency("RUB"), Currency::RUB);
    assert_eq!(parse_currency("rUr"), Currency::RUB);
}

#[test]
fn parse_currency_recognizes_usd_eur_cny() {
    assert_eq!(parse_currency("usd"), Currency::USD);
    assert_eq!(parse_currency("Доллар США"), Currency::USD);
    assert_eq!(parse_currency("EUR"), Currency::EUR);
    assert_eq!(parse_currency("евро"), Currency::EUR);
    assert_eq!(parse_currency("cny"), Currency::CNY);
    assert_eq!(parse_currency("юань"), Currency::CNY);
}

#[test]
fn parse_currency_falls_back_to_other_with_trimmed_original() {
    let cur = parse_currency("  GBP ");
    match cur {
        Currency::Other(s) => assert_eq!(s, "GBP"),
        other => panic!("expected Currency::Other(\"GBP\"), got {:?}", other),
    }
}


#[test]
fn parse_amount_plain_integer_and_zero() {
    assert_eq!(parse_amount("0").unwrap(), 0);
    assert_eq!(parse_amount("1").unwrap(), 100);
    assert_eq!(parse_amount("42").unwrap(), 4200);
}

#[test]
fn parse_amount_with_dot_or_comma_fraction() {
    assert_eq!(parse_amount("1.2").unwrap(), 120);
    assert_eq!(parse_amount("1.23").unwrap(), 123);
    assert_eq!(parse_amount("1,2").unwrap(), 120);
    assert_eq!(parse_amount("1,23").unwrap(), 123);
}

#[test]
fn parse_amount_with_spaces_and_thousand_separators() {
    assert_eq!(parse_amount("1 234,56").unwrap(), 123_456);
    assert_eq!(parse_amount("1 234.56").unwrap(), 123_456);

    assert_eq!(parse_amount("1,234.56").unwrap(), 123_456);
}

#[test]
fn parse_amount_empty_or_whitespace_is_error() {
    assert!(matches!(parse_amount(""), Err(ParseError::InvalidAmount(_))));
    assert!(matches!(parse_amount("   "), Err(ParseError::InvalidAmount(_))));
}

#[test]
fn parse_amount_negative_is_error() {
    assert!(matches!(parse_amount("-1"), Err(ParseError::InvalidAmount(_))));
    assert!(matches!(parse_amount(" -10,00 "), Err(ParseError::InvalidAmount(_))));
}

#[test]
fn parse_amount_too_many_fraction_digits_is_error() {
    assert!(matches!(parse_amount("1.234"), Err(ParseError::InvalidAmount(_))));
    assert!(matches!(parse_amount("1,234"), Err(ParseError::InvalidAmount(_))));
}

#[test]
fn parse_amount_too_many_dots_is_error() {
    assert!(matches!(parse_amount("1.2.3"), Err(ParseError::InvalidAmount(_))));
}

#[test]
fn parse_amount_non_numeric_int_part_is_int_error() {
    assert!(matches!(parse_amount("abc"), Err(ParseError::Int(_))));
}


#[test]
fn parse_signed_balance_credit_is_positive() {
    let v = parse_signed_balance("1.23", Direction::Credit).unwrap();
    assert_eq!(v, 123i128);
}

#[test]
fn parse_signed_balance_debit_is_negative() {
    let v = parse_signed_balance("1.23", Direction::Debit).unwrap();
    assert_eq!(v, -123i128);
}

#[test]
fn parse_signed_balance_propagates_parse_errors() {
    let res = parse_signed_balance("-1.00", Direction::Credit);
    assert!(matches!(res, Err(ParseError::InvalidAmount(_))));
}
