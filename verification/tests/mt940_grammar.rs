use parser::date::Date;
use parser::error::ParseError;
use parser::mt940::utils::{
    derive_booking_date, find_iban_and_name_in_line, find_iban_and_name_in_lines, find_iban_in_line,
    normalize_and_check_iban, parse_dc_and_amount, parse_mt940_yy_mm_dd, split_tag_line, take_char,
    take_while,
};

#[test]
fn split_tag_line_parses_valid_line() {
    let (tag, value) = split_tag_line(":20:ABC").unwrap();
    assert_eq!(tag, "20");
    assert_eq!(value, "ABC");
}

#[test]
fn split_tag_line_trims_leading_spaces_and_tag() {
    let (tag, value) = split_tag_line("   :25: 123456789 ").unwrap();
    assert_eq!(tag, "25");
    assert_eq!(value, " 123456789 ");
}

#[test]
fn split_tag_line_fails_if_no_leading_colon() {
    let err = split_tag_line("20:ABC").unwrap_err();
    assert!(matches!(err, ParseError::Mt940Tag(_)));
}

#[test]
fn split_tag_line_fails_if_no_second_colon() {
    let err = split_tag_line(":20ABC").unwrap_err();
    assert!(matches!(err, ParseError::Mt940Tag(_)));
}


#[test]
fn parse_mt940_yy_mm_dd_parses_valid_strings() {
    assert_eq!(
        parse_mt940_yy_mm_dd("251101").unwrap(),
        Date::from_ymd_opt(2025, 11, 1).unwrap()
    );
}

#[test]
fn parse_mt940_yy_mm_dd_fails_when_expected() {
    assert!(matches!(
        parse_mt940_yy_mm_dd("251301"),
        Err(ParseError::BadInput(_))
    ));
    assert!(matches!(
        parse_mt940_yy_mm_dd("251150"),
        Err(ParseError::BadInput(_))
    ));
    assert!(matches!(
        parse_mt940_yy_mm_dd("abdbef"),
        Err(ParseError::BadInput(_))
    ));
    assert!(matches!(
        parse_mt940_yy_mm_dd("абвгдеёжзи"),
        Err(ParseError::BadInput(_))
    ));
    assert!(matches!(
        parse_mt940_yy_mm_dd("1101"),
        Err(ParseError::BadInput(_))
    ));
}


#[test]
fn derive_booking_date_defaults_to_value_date_when_none() {
    let vd = Date::from_ymd_opt(2025, 11, 1).unwrap();
    let bd = derive_booking_date(vd, None).unwrap();
    assert_eq!(bd, vd);
}

#[test]
fn derive_booking_date_uses_mmdd_when_4_digits() {
    let vd = Date::from_ymd_opt(2025, 11, 1).unwrap();
    let bd = derive_booking_date(vd, Some("0205")).unwrap();
    assert_eq!(bd, Date::from_ymd_opt(2025, 2, 5).unwrap());
}

#[test]
fn derive_booking_date_uses_dd_when_2_digits() {
    let vd = Date::from_ymd_opt(2025, 11, 1).unwrap();
    let bd = derive_booking_date(vd, Some("15")).unwrap();
    assert_eq!(bd, Date::from_ymd_opt(2025, 11, 15).unwrap());
}

#[test]
fn derive_booking_date_fails_on_invalid_length() {
    assert!(matches!(
        derive_booking_date(
            Date::from_ymd_opt(2025, 11, 1).unwrap(),
            Some("2")
        ),
        Err(ParseError::BadInput(_))
    ));
    assert!(matches!(
        derive_booking_date(
            Date::from_ymd_opt(2025, 11, 1).unwrap(),
            Some("010203")
        ),
        Err(ParseError::BadInput(_))
    ));
}

#[test]
fn derive_booking_date_fails_on_invalid_digits() {
    assert!(matches!(
        derive_booking_date(
            Date::from_ymd_opt(2025, 11, 1).unwrap(),
            Some("zz")
        ),
        Err(ParseError::BadInput(_))
    ));
    assert!(matches!(
        derive_booking_date(
            Date::from_ymd_opt(2025, 11, 1).unwrap(),
            Some("99aa")
        ),
        Err(ParseError::BadInput(_))
    ));
}


const VALID_IBAN: &str = "DE02123412341234123412";

#[test]
fn normalize_and_check_iban_accepts_simple_iban() {
    let iban = normalize_and_check_iban(VALID_IBAN);
    assert_eq!(iban, Some(VALID_IBAN.to_string()));
}

#[test]
fn normalize_and_check_iban_strips_non_alnum_at_edges() {
    let iban = normalize_and_check_iban(&format!("  {VALID_IBAN},"));
    assert_eq!(iban, Some(VALID_IBAN.to_string()));
}

#[test]
fn normalize_and_check_iban_rejects_too_short() {
    let iban = normalize_and_check_iban("DE12999");
    assert!(iban.is_none());
}

#[test]
fn find_iban_in_line_finds_first_iban_like_token() {
    let line = format!("foo {VALID_IBAN} bar");
    let iban = find_iban_in_line(&line);
    assert_eq!(iban, Some(VALID_IBAN.to_string()));
}

#[test]
fn find_iban_in_line_returns_none_if_no_iban() {
    let line = "foo bar baz";
    let iban = find_iban_in_line(line);
    assert!(iban.is_none());
}


#[test]
fn find_iban_and_name_in_line_with_inline_name() {
    let line = format!("{VALID_IBAN} JOHN DOE");
    let (iban, name) = find_iban_and_name_in_line(&line).unwrap();
    assert_eq!(iban, VALID_IBAN);
    assert_eq!(name, Some("JOHN DOE".to_string()));
}

#[test]
fn find_iban_and_name_in_line_without_name() {
    let line = VALID_IBAN;
    let (iban, name) = find_iban_and_name_in_line(line).unwrap();
    assert_eq!(iban, VALID_IBAN);
    assert_eq!(name, None);
}

#[test]
fn find_iban_and_name_in_line_returns_none_if_no_iban() {
    let line = "JOHN DOE ONLY";
    assert!(find_iban_and_name_in_line(line).is_none());
}


#[test]
fn find_iban_and_name_in_lines_prefers_inline_case() {
    let lines = vec![
        "SOME HEADER".to_string(),
        format!("{VALID_IBAN} JOHN DOE"),
        "SHOULD BE IGNORED".to_string(),
    ];
    let (iban, name) = find_iban_and_name_in_lines(&lines).unwrap();
    assert_eq!(iban, VALID_IBAN);
    assert_eq!(name, Some("JOHN DOE".to_string()));
}

#[test]
fn find_iban_and_name_in_lines_uses_next_line_as_name_if_needed() {
        let lines = vec![
            "SOME HEADER".to_string(),
            format!("IBAN: {VALID_IBAN}"),
            "".to_string(),
            "John Doe Full Name".to_string(),
        ];

        let (iban, name) = find_iban_and_name_in_lines(&lines).unwrap();
        assert_eq!(iban, VALID_IBAN);
        assert_eq!(name, Some("John Doe Full Name".to_string()));
    }

#[test]
fn find_iban_and_name_in_lines_returns_none_if_no_iban() {
    let lines = vec![
        "NO IBAN HERE".to_string(),
        "STILL NO IBAN".to_string(),
    ];
    assert!(find_iban_and_name_in_lines(&lines).is_none());
}


#[test]
fn take_char_returns_first_char_and_moves_rest() {
    let mut rest = "ABC";

    assert_eq!(take_char(&mut rest), Some('A'));
    assert_eq!(rest, "BC");

    assert_eq!(take_char(&mut rest), Some('B'));
    assert_eq!(rest, "C");

    assert_eq!(take_char(&mut rest), Some('C'));
    assert_eq!(rest, "");

    assert_eq!(take_char(&mut rest), None);
    assert_eq!(rest, "");
}

#[test]
fn take_char_handles_utf8_multibyte_char() {
    let mut rest = "Ж9";

    assert_eq!(take_char(&mut rest), Some('Ж'));
    assert_eq!(rest, "9");

    assert_eq!(take_char(&mut rest), Some('9'));
    assert_eq!(rest, "");

    assert_eq!(take_char(&mut rest), None);
}


#[test]
fn take_while_stops_before_first_non_matching_char() {
    let mut rest = "123ABC";

    let prefix = take_while(&mut rest, |ch| ch.is_ascii_digit());

    assert_eq!(prefix, "123");
    assert_eq!(rest, "ABC");
}

#[test]
fn take_while_can_return_empty_and_leave_rest_unchanged() {
    let mut rest = "ABC";

    let prefix = take_while(&mut rest, |ch| ch.is_ascii_digit());

    assert_eq!(prefix, "");
    assert_eq!(rest, "ABC");
}

#[test]
fn take_while_handles_utf8_multibyte_chars() {
    let mut rest = "ЖЖA";

    let prefix = take_while(&mut rest, |ch| !ch.is_ascii());

    assert_eq!(prefix, "ЖЖ");
    assert_eq!(rest, "A");
}


#[test]
fn parse_dc_and_amount_parses_simple_credit_without_tail() {
    let rest = "C100,00";
    let full = rest;

    let (dc_mark, funds_code, amount, tail) =
        parse_dc_and_amount(rest, full).expect("parse_dc_and_amount failed");

    assert_eq!(dc_mark, 'C');
    assert_eq!(funds_code, None);
    assert_eq!(amount, "100,00");
    assert_eq!(tail, "");
}

#[test]
fn parse_dc_and_amount_parses_debit_with_tail_after_amount() {
    let rest = "D250,00NTRFREF123//BANKREF some extra";
    let full = rest;

    let (dc_mark, funds_code, amount, tail) =
        parse_dc_and_amount(rest, full).expect("parse_dc_and_amount failed");

    assert_eq!(dc_mark, 'D');
    assert_eq!(funds_code, None);
    assert_eq!(amount, "250,00");
    assert!(tail.starts_with("NTRFREF123//BANKREF some extra"));
}

#[test]
fn parse_dc_and_amount_parses_optional_funds_code() {
    let rest = "DR100,00";
    let full = rest;

    let (dc_mark, funds_code, amount, tail) =
        parse_dc_and_amount(rest, full).expect("parse_dc_and_amount failed");

    assert_eq!(dc_mark, 'D');
    assert_eq!(funds_code, Some('R'));
    assert_eq!(amount, "100,00");
    assert_eq!(tail, "");
}

#[test]
fn parse_dc_and_amount_errors_when_amount_missing() {
    let rest = "C";
    let full = rest;

    let result = parse_dc_and_amount(rest, full);

    assert!(result.is_err(), "expected error when amount is missing");
}
