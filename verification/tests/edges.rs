use parser::camt053::models::{Camt053BankToCustomer, Camt053Document, Camt053Statement};
use parser::camt053::{clean_xml, Camt053Data};
use parser::csv_parser::utils::{parse_footer_balance, parse_rus_date};
use parser::csv_parser::{CsvData, CsvRecord, TableLayout};
use parser::date::{Date, Timestamp};
use parser::error::{ErrorKind, ParseError};
use parser::model::{Currency, Direction, Statement, Transaction};
use parser::mt940::utils::{
    derive_booking_date, is_in_capitals, normalize_and_check_iban, parse_mt940_yy_mm_dd,
    split_tag_line,
};
use parser::mt940::{parse_balance, Mt940Data, Mt940Entry, Mt940Message};
use parser::number::IntErrorKind;
use parser::serialization::csv_helpers::{encode_rows, format_rus_date};
use parser::utils::{parse_amount, parse_currency, parse_signed_balance, written_currency};

fn ymd(y: i32, m: u32, d: u32) -> Date {
    Date::from_ymd_opt(y, m, d).unwrap()
}

fn lines_of(text: &[&str]) -> Vec<String> {
    text.iter().map(|l| l.to_string()).collect()
}

#[test]
fn entry_line_with_both_dates() {
    let entry =
        Mt940Entry::from_61_line("2301010102C100,00", ":61:2301010102C100,00".to_string()).unwrap();
    let tx = Transaction::try_from(&entry).unwrap();
    assert_eq!(tx.value_date, Some(ymd(2023, 1, 1)));
    assert_eq!(tx.booking_date, ymd(2023, 1, 2));
    assert_eq!(tx.direction, Direction::Credit);
    assert_eq!(tx.amount, 10_000);
    assert_eq!(tx.description, ":61:2301010102C100,00");
}

#[test]
fn entry_line_variants() {
    let e = Mt940Entry::from_61_line("230101DR5,NCHK", String::new()).unwrap();
    assert_eq!(e.entry_date, None);
    assert_eq!(e.dc_mark, 'D');
    assert_eq!(e.funds_code, Some('R'));
    assert_eq!(e.amount, "5,");
    assert_eq!(e.transaction_type.as_deref(), Some("NCHK"));
    assert_eq!(e.customer_reference, None);

    let e = Mt940Entry::from_61_line("  23010112345R1,00NOVBNL47INGB9999999999 ", String::new())
        .unwrap();
    assert_eq!(e.value_date, "230101");
    assert_eq!(e.entry_date.as_deref(), Some("1234"));
    assert_eq!(e.dc_mark, '5');
    assert_eq!(e.funds_code, Some('R'));
    assert_eq!(e.amount, "1,00");
    assert_eq!(e.transaction_type.as_deref(), Some("NOVB"));
    assert_eq!(e.customer_reference.as_deref(), Some("NL47INGB9999999999"));
    assert!(matches!(
        Mt940Entry::from_61_line("2301011234XC1,00", String::new()),
        Err(ParseError::BadInput(_))
    ));

    let e = Mt940Entry::from_61_line("230101C1,00NTRF ref only", String::new()).unwrap();
    assert_eq!(e.transaction_type.as_deref(), Some("NTRF"));
    assert_eq!(e.customer_reference.as_deref(), Some("ref only"));
    assert_eq!(e.bank_reference, None);

    let e = Mt940Entry::from_61_line("230101C1,00NTRFA//", String::new()).unwrap();
    assert_eq!(e.customer_reference.as_deref(), Some("A"));
    assert_eq!(e.bank_reference, None);
    assert_eq!(e.extra_details, None);

    let e = Mt940Entry::from_61_line("230101C1,00NTRFA//B ", String::new()).unwrap();
    assert_eq!(e.bank_reference.as_deref(), Some("B"));
    assert_eq!(e.extra_details, None);

    assert!(matches!(
        Mt940Entry::from_61_line("230101C", String::new()),
        Err(ParseError::BadInput(_))
    ));
    assert!(matches!(
        Mt940Entry::from_61_line("230101C,NTRF", String::new()),
        Err(ParseError::BadInput(_))
    ));
    assert!(matches!(
        Mt940Entry::from_61_line("23A1010102C1,00", String::new()),
        Err(ParseError::BadInput(_))
    ));
    assert!(matches!(
        Mt940Entry::from_61_line("+30101C1,00", String::new()),
        Err(ParseError::BadInput(_))
    ));
    assert!(matches!(
        Mt940Entry::from_61_line("230101C.,.NTRF", String::new()),
        Err(ParseError::BadInput(_))
    ));
    let e = Mt940Entry::from_61_line("230101C,5NTRF", String::new()).unwrap();
    assert_eq!(e.amount, ",5");
    assert!(matches!(
        Mt940Entry::from_61_line("2301010102", String::new()),
        Err(ParseError::BadInput(_))
    ));
}

#[test]
fn an_iban_is_kept_in_capitals() {
    let kept = Some("DE89370400440532013000".to_string());
    assert_eq!(normalize_and_check_iban("DE89370400440532013000"), kept);
    assert_eq!(normalize_and_check_iban("de89370400440532013000"), kept);
    assert_eq!(normalize_and_check_iban("(De89370400440532013000),"), kept);
    assert_eq!(normalize_and_check_iban("DE89 370400440532013000"), None);
    assert_eq!(normalize_and_check_iban("DE8937040044053201300\n0"), None);
    assert_eq!(normalize_and_check_iban("DE89"), None);
    assert_eq!(normalize_and_check_iban(""), None);
    let capitals: Vec<char> = "DE89370400440532013000".chars().collect();
    assert!(is_in_capitals(&capitals));
    let small: Vec<char> = "De89370400440532013000".chars().collect();
    assert!(!is_in_capitals(&small));
    let none: Vec<char> = Vec::new();
    assert!(is_in_capitals(&none));
}

#[test]
fn two_digit_years() {
    assert_eq!(parse_mt940_yy_mm_dd("790101").unwrap(), ymd(2079, 1, 1));
    assert_eq!(parse_mt940_yy_mm_dd("800101").unwrap(), ymd(1980, 1, 1));
    assert_eq!(parse_mt940_yy_mm_dd("991231").unwrap(), ymd(1999, 12, 31));
    assert_eq!(parse_mt940_yy_mm_dd("000229").unwrap(), ymd(2000, 2, 29));
    assert!(parse_mt940_yy_mm_dd("230229").is_err());
    assert!(matches!(parse_mt940_yy_mm_dd("-50101"), Err(ParseError::BadInput(_))));
    assert!(matches!(parse_mt940_yy_mm_dd("+50101"), Err(ParseError::BadInput(_))));
    assert!(matches!(parse_mt940_yy_mm_dd("23+101"), Err(ParseError::BadInput(_))));
    assert!(matches!(parse_mt940_yy_mm_dd("2301+1"), Err(ParseError::BadInput(_))));
    assert!(matches!(parse_mt940_yy_mm_dd("23 101"), Err(ParseError::BadInput(_))));
    assert_eq!(ymd(2079, 1, 1).format_yymmdd(), "790101");
    assert_eq!(ymd(1980, 1, 1).format_yymmdd(), "800101");
}

#[test]
fn booking_date_from_entry_date() {
    let value = ymd(2024, 2, 1);
    assert_eq!(derive_booking_date(value, Some("0229")).unwrap(), ymd(2024, 2, 29));
    assert_eq!(derive_booking_date(value, Some("29")).unwrap(), ymd(2024, 2, 29));
    assert!(matches!(
        derive_booking_date(value, Some("30")),
        Err(ParseError::BadInput(_))
    ));
    assert!(matches!(
        derive_booking_date(value, Some("")),
        Err(ParseError::BadInput(_))
    ));
    assert!(matches!(
        derive_booking_date(value, Some("+1")),
        Err(ParseError::BadInput(_))
    ));
    assert!(matches!(
        derive_booking_date(value, Some("+102")),
        Err(ParseError::BadInput(_))
    ));
    assert!(matches!(
        derive_booking_date(value, Some("02+1")),
        Err(ParseError::BadInput(_))
    ));
}

#[test]
fn balance_grammar() {
    assert!(matches!(parse_balance("C230101EUR"), Err(ParseError::BadInput(_))));
    assert!(matches!(parse_balance("C23010XEUR1,00"), Err(ParseError::BadInput(_))));
    assert!(matches!(parse_balance("C-30101EUR1,00"), Err(ParseError::BadInput(_))));
    assert!(matches!(parse_balance("C 30101EUR1,00"), Err(ParseError::BadInput(_))));
    let b = parse_balance("  C230101EUR 1,5  ").unwrap();
    assert_eq!(b.dc_mark, 'C');
    assert_eq!(b.date, "230101");
    assert_eq!(b.currency, "EUR");
    assert_eq!(b.amount, "1,5");
}

#[test]
fn framing_with_round_brackets_and_an_open_end() {
    let text = "(1:x)(4:\n:25:ACC\n:60F:C230101EUR1,00\n:61:230102C2,00\nmore text\n";
    let (data, count) = Mt940Data::parse_counting(text).unwrap();
    assert_eq!(count, 1);
    assert_eq!(data.message.account_id, "ACC");
    assert_eq!(data.message.entries.len(), 1);
    assert_eq!(data.message.entries[0].info.lines, vec!["more text".to_string()]);
}

#[test]
fn framing_keeps_the_first_kind_of_delimiters() {
    let text = "{4:\n:25:FIRST\n:60F:C230101EUR1,00\n-}\n(4:\n:25:SECOND\n:60F:C230101EUR1,00\n-)\n{4:\n:25:THIRD\n:60F:C230101EUR1,00\n-}\n";
    let (data, count) = Mt940Data::parse_counting(text).unwrap();
    assert_eq!(data.message.account_id, "FIRST");
    assert_eq!(count, 2);
    let text = "x (4: {4:\n:25:ROUND\n:60F:C230101EUR1,00\n)\n";
    let (data, count) = Mt940Data::parse_counting(text).unwrap();
    assert_eq!(data.message.account_id, "ROUND");
    assert_eq!(count, 1);
}

#[test]
fn framing_takes_what_follows_the_opener() {
    let text = "{4::25:ACC\n:60F:C230101EUR1,00\n}";
    let data = Mt940Data::parse(text).unwrap();
    assert_eq!(data.message.account_id, "ACC");
}

#[test]
fn later_messages_must_be_well_formed() {
    let text = "{4:\n:25:A\n:60F:C230101EUR1,00\n-}\n{4:\n:20:no account\n-}\n";
    assert!(matches!(Mt940Data::parse(text), Err(ParseError::BadInput(_))));
    assert!(matches!(Mt940Data::parse("{4:\n\n"), Err(ParseError::BadInput(_))));
    assert!(matches!(Mt940Data::parse("no block"), Err(ParseError::BadInput(_))));
}

#[test]
fn tag_dispatch() {
    let lines = lines_of(&[
        "text before any entry is dropped",
        ":86:so is this",
        " :25: ACC \r",
        ":60M:C230101EUR1,00",
        ":60F:D230102USD2,00",
        ":99:unknown",
        ":61:230103C3,00",
        "continuation",
        ":86: free text ",
        ":61:230104D4,00",
        ":64:C230105EUR5,00",
        ":62M:D230106EUR6,00",
    ]);
    let m = Mt940Message::from_string_lines(&lines).unwrap();
    assert_eq!(m.account_id, " ACC ");
    assert_eq!(m.transaction_reference, None);
    assert_eq!(m.opening_balance.currency, "EUR");
    assert_eq!(m.entries.len(), 2);
    assert_eq!(
        m.entries[0].info.lines,
        vec!["continuation".to_string(), "free text".to_string()]
    );
    assert!(m.entries[1].info.lines.is_empty());
    assert_eq!(m.closing_balance.unwrap().dc_mark, 'D');
    assert_eq!(m.closing_available_balance.unwrap().amount, "5,00");
    let bad = lines_of(&[":25"]);
    assert!(matches!(
        Mt940Message::from_string_lines(&bad),
        Err(ParseError::Mt940Tag(_))
    ));
}

#[test]
fn period_without_a_closing_balance() {
    let lines = lines_of(&[":25:A", ":60F:C230105EUR1,00", ":61:2301100112C1,00", ":61:230107C1,00"]);
    let stmt = Statement::try_from(Mt940Message::from_string_lines(&lines).unwrap()).unwrap();
    assert_eq!(stmt.period_from, ymd(2023, 1, 5));
    assert_eq!(stmt.period_until, ymd(2023, 1, 12));
    assert_eq!(stmt.closing_balance, None);
    let lines = lines_of(&[":25:A", ":60F:C230105EUR1,00"]);
    let stmt = Statement::try_from(Mt940Message::from_string_lines(&lines).unwrap()).unwrap();
    assert_eq!(stmt.period_until, ymd(2023, 1, 5));
}

#[test]
fn tag_lines() {
    assert_eq!(split_tag_line(":20::x:").unwrap(), ("20", ":x:"));
    assert_eq!(split_tag_line(": 61 :").unwrap(), ("61", ""));
    assert_eq!(split_tag_line("::").unwrap(), ("", ""));
    assert!(split_tag_line("").is_err());
}

#[test]
fn iban_tokens() {
    assert_eq!(
        normalize_and_check_iban("(de89370400440532013000)").as_deref(),
        Some("DE89370400440532013000")
    );
    assert_eq!(normalize_and_check_iban("DE8937040044053"), Some("DE8937040044053".to_string()));
    assert_eq!(normalize_and_check_iban("DE893704004405"), None);
    assert_eq!(normalize_and_check_iban("DE89370400440532013000123456789012345"), None);
    assert_eq!(normalize_and_check_iban("1E89370400440532013000"), None);
    assert_eq!(normalize_and_check_iban("DE89-370400440532013000"), None);
    assert_eq!(normalize_and_check_iban("--"), None);
}

#[test]
fn every_kind_of_error() {
    assert!(matches!(CsvData::parse(b"a,b\nc\n"), Err(ParseError::Csv(_))));
    assert!(matches!(CsvData::parse(b"\xff\xfe\n"), Err(ParseError::Csv(_))));
    let record = CsvRecord {
        booking_date: "2023-01-10".to_string(),
        debit_amount: Some("1".to_string()),
        ..CsvRecord::default()
    };
    assert!(matches!(record.into_transaction("A"), Err(ParseError::Date(_))));
    assert!(matches!(parse_amount("x"), Err(ParseError::Int(IntErrorKind::InvalidDigit))));
    assert!(matches!(parse_amount(".5"), Err(ParseError::Int(IntErrorKind::Empty))));
    assert!(matches!(
        parse_amount("184467440737095516.16"),
        Err(ParseError::Int(IntErrorKind::PosOverflow))
    ));
    assert!(matches!(
        parse_amount("18446744073709551616"),
        Err(ParseError::Int(IntErrorKind::PosOverflow))
    ));
    assert!(matches!(parse_amount("1.x"), Err(ParseError::InvalidAmount(_))));
    assert!(matches!(parse_amount("1.xy"), Err(ParseError::Int(_))));
    assert!(matches!(
        Statement::try_from(Camt053Statement::default()),
        Err(ParseError::InvalidCurrency(_))
    ));
    assert!(matches!(
        parse_signed_balance("-1", Direction::Debit),
        Err(ParseError::InvalidAmount(_))
    ));
    let record = CsvRecord {
        booking_date: "10.01.2023".to_string(),
        debit_amount: Some("1".to_string()),
        credit_amount: Some("2".to_string()),
        ..CsvRecord::default()
    };
    assert!(matches!(
        record.into_transaction("A"),
        Err(ParseError::AmountSideConflict)
    ));
    assert!(matches!(CsvData::parse(b"a,b\n"), Err(ParseError::Header(_))));
    assert!(matches!(parse_balance("C"), Err(ParseError::BadInput(_))));
    assert!(matches!(split_tag_line("x"), Err(ParseError::Mt940Tag(_))));
}

#[test]
fn error_messages() {
    let e = parse_amount("").unwrap_err();
    assert_eq!(e.kind_of(), ErrorKind::InvalidAmount);
    assert_eq!(e.message(), "invalid amount: empty amount");
    assert_eq!(
        parse_amount("-1").unwrap_err().message(),
        "invalid amount: negative amount: -1"
    );
    assert_eq!(
        parse_amount("x").unwrap_err().message(),
        "number parse error: invalid digit found in string"
    );
    assert_eq!(
        ParseError::AmountSideConflict.message(),
        "both debit and credit amount present or both empty"
    );
    assert_eq!(
        ParseError::MissingField("Acct").message(),
        "missing field: Acct"
    );
    assert_eq!(
        ParseError::InvalidDirection("X".to_string()).message(),
        "invalid direction: X"
    );
    assert_eq!(
        parse_balance("C2301").unwrap_err().message(),
        "bad input: balance value too short: 'C2301'"
    );
    let e = CsvData::parse(b"a,b\nc\n").unwrap_err();
    assert!(e.message().starts_with("CSV error: "));
    assert!(e.message().len() > "CSV error: ".len());
    let e = Date::parse_from_str("x", "%d.%m.%Y").unwrap_err();
    assert!(!e.is_empty());
}

#[test]
fn amounts_at_the_edges() {
    assert!(matches!(parse_amount("+7"), Err(ParseError::Int(_))));
    assert!(matches!(parse_amount("+5"), Err(ParseError::Int(_))));
    assert!(matches!(parse_amount("1.+5"), Err(ParseError::Int(_))));
    assert!(matches!(parse_amount("1+2"), Err(ParseError::Int(_))));
    assert!(matches!(parse_amount("1.5+"), Err(ParseError::Int(_))));
    assert_eq!(parse_amount("1.05").unwrap(), 105);
    assert_eq!(parse_amount("007,5").unwrap(), 750);
    assert_eq!(parse_amount("\u{a0}1\u{2003}").unwrap(), 100);
    assert!(matches!(parse_amount("1\u{a0}000"), Err(ParseError::Int(_))));
    assert!(matches!(parse_amount("1,000,5"), Err(ParseError::InvalidAmount(_))));
    assert_eq!(parse_amount("1,5.5,5").unwrap(), 1555);
    assert!(matches!(parse_amount("1.5,5.5"), Err(ParseError::InvalidAmount(_))));
    assert_eq!(parse_amount("1,000.5").unwrap(), 100_050);
    assert!(matches!(parse_amount("."), Err(ParseError::Int(_))));
    assert!(matches!(parse_amount(" - 1"), Err(ParseError::InvalidAmount(_))));
}

#[test]
fn currencies() {
    assert_eq!(parse_currency(" Eur\n"), Currency::EUR);
    assert_eq!(parse_currency("РУБЛЬ"), Currency::RUB);
    assert_eq!(parse_currency("Китайский Юань"), Currency::CNY);
    assert_eq!(parse_currency(""), Currency::Other(String::new()));
    assert_eq!(parse_currency("euro"), Currency::Other("euro".to_string()));
    for (code, name, currency) in [
        ("RUB", "Российский рубль", Currency::RUB),
        ("USD", "Доллар США", Currency::USD),
        ("EUR", "Евро", Currency::EUR),
        ("CNY", "Китайский юань", Currency::CNY),
    ] {
        let written: Vec<char> = code.chars().collect();
        assert_eq!(written_currency(&written), Some(currency.clone()));
        let written: Vec<char> = name.chars().collect();
        assert_eq!(written_currency(&written), Some(currency.clone()));
        let lower: Vec<char> = code.to_lowercase().chars().collect();
        assert_eq!(written_currency(&lower), None);
        assert_eq!(parse_currency(code), currency);
        assert_eq!(parse_currency(&code.to_lowercase()), currency);
        assert_eq!(parse_currency(&format!(" {name}\t")), currency);
        assert_eq!(parse_currency(&name.to_uppercase()), currency);
    }
    let spaced: Vec<char> = " EUR".chars().collect();
    assert_eq!(written_currency(&spaced), None);
    assert_eq!(parse_currency("XXX"), Currency::Other("XXX".to_string()));
    assert_eq!(parse_currency("???"), Currency::Other("???".to_string()));
}

#[test]
fn footer_balances() {
    let mut row = vec![String::new(); 12];
    row[7] = "1,00".to_string();
    row[11] = "2,00".to_string();
    assert!(matches!(parse_footer_balance(&row), Err(ParseError::Header(_))));
    row[11] = "0".to_string();
    assert_eq!(parse_footer_balance(&row).unwrap(), -100);
    assert_eq!(parse_footer_balance(&row[..3]).unwrap(), 0);
}

#[test]
fn written_out_dates_are_read_back() {
    for month in 1..=12 {
        for (year, day) in [(2024, 1), (1999, 28), (-5, 9), (0, 10), (262_142, 11)] {
            let date = ymd(year, month, day);
            let text = format_rus_date(date);
            assert_eq!(parse_rus_date(&text).unwrap(), date, "{text}");
            assert_eq!(parse_rus_date(&text.to_uppercase()).unwrap(), date, "{text}");
        }
    }
    assert_eq!(format_rus_date(ymd(2024, 3, 1)), "01 марта 2024 г.");
    assert_eq!(format_rus_date(ymd(-5, 12, 31)), "31 декабря -5 г.");
}

#[test]
fn written_out_dates() {
    assert_eq!(parse_rus_date("1 Марта 2024 года").unwrap(), ymd(2024, 3, 1));
    assert_eq!(parse_rus_date("29 февраля 2024 г. г.. ").unwrap(), ymd(2024, 2, 29));
    assert!(matches!(parse_rus_date("29 февраля 2023"), Err(ParseError::Header(_))));
    assert!(matches!(parse_rus_date("1 march 2024"), Err(ParseError::Header(_))));
    assert!(matches!(parse_rus_date(""), Err(ParseError::Header(_))));
}

#[test]
fn short_rows_do_not_fit_the_layout() {
    let mut head = vec![String::new(); 7];
    head[0] = "Дата проводки".to_string();
    head[1] = "№ документа".to_string();
    head[2] = "ВО".to_string();
    head[3] = "Банк".to_string();
    head[4] = "Сумма по дебету".to_string();
    head[5] = "Сумма по кредиту".to_string();
    head[6] = "Назначение платежа".to_string();
    let mut sub = vec![String::new(); 7];
    sub[1] = "Дебет".to_string();
    sub[2] = "Кредит".to_string();
    let layout = TableLayout::from_string_records(&head, &sub).unwrap();
    assert!(layout.covers(7));
    assert!(layout.covers(4));
    assert!(!layout.covers(3));
    let mut rows: Vec<Vec<String>> = Vec::new();
    for _ in 0..8 {
        rows.push(vec![String::new(); 7]);
    }
    rows.push(head);
    rows.push(sub);
    rows.push(vec!["x".to_string()]);
    rows.push(vec!["б/с".to_string()]);
    assert!(matches!(CsvData::from_rows(&rows), Err(ParseError::Header(_))));
    rows.remove(10);
    let err = CsvData::from_rows(&rows).unwrap_err();
    assert_eq!(err.message(), "invalid header: opening balance not found in footer");
}

#[test]
fn rows_are_written_as_the_csv_crate_writes_them() {
    let rows = vec![
        vec!["plain".to_string(), "with,comma".to_string(), "with \"quote\"".to_string()],
        vec![String::new()],
    ];
    assert_eq!(
        encode_rows(&rows).unwrap(),
        "plain,\"with,comma\",\"with \"\"quote\"\"\"\n\"\"\n"
    );
}

#[test]
fn first_statement_of_two() {
    let mut first = Camt053Statement::default();
    first.id = Some("one".to_string());
    let mut second = Camt053Statement::default();
    second.id = Some("two".to_string());
    let doc = Camt053Document {
        bank_to_customer: Camt053BankToCustomer {
            group_header: None,
            statements: vec![first, second],
        },
    };
    assert_eq!(doc.statement_count(), 2);
    let data = Camt053Data::from_document(doc).unwrap();
    assert_eq!(data.statement.id.as_deref(), Some("one"));
    let err = Camt053Data::from_document(Camt053Document::default()).unwrap_err();
    assert_eq!(err.message(), "bad input: CAMT file has no <Stmt>");
    let alone = Camt053Data::from_statement(Camt053Statement::default());
    assert_eq!(alone.statement.id, None);
    assert_eq!(clean_xml("a\u{a0}b c"), "a b c");
}

#[test]
fn calendar() {
    assert!(Date::from_ymd_opt(2023, 2, 29).is_none());
    assert!(Date::from_ymd_opt(2024, 2, 29).is_some());
    assert!(Date::from_ymd_opt(1900, 2, 29).is_none());
    assert!(Date::from_ymd_opt(2000, 2, 29).is_some());
    assert!(Date::from_ymd_opt(-4, 2, 29).is_some());
    assert!(Date::from_ymd_opt(2023, 0, 1).is_none());
    assert!(Date::from_ymd_opt(2023, 13, 1).is_none());
    assert!(Date::from_ymd_opt(2023, 4, 31).is_none());
    assert!(Date::from_ymd_opt(262142, 12, 31).is_some());
    assert!(Date::from_ymd_opt(262143, 1, 1).is_none());
    assert!(Date::from_ymd_opt(-262143, 1, 1).is_some());
    assert!(Date::from_ymd_opt(-262144, 12, 31).is_none());
    let d = ymd(2023, 4, 9);
    assert_eq!((d.year(), d.month(), d.day()), (2023, 4, 9));
    assert_eq!(d.format_yymmdd(), "230409");
    assert_eq!(d.format_mmdd(), "0409");
    assert_eq!(d.format_dotted(), "09.04.2023");
    assert_eq!(d.format_iso(), "2023-04-09");
    assert_eq!(ymd(987, 1, 2).format_iso(), "0987-01-02");
    assert_eq!(ymd(12345, 1, 2).format_iso(), "+12345-01-02");
    assert_eq!(ymd(-5, 1, 2).format_dotted(), "02.01.-0005");
    assert_eq!(ymd(-12345, 1, 2).format_iso(), "-12345-01-02");
    assert_eq!(ymd(-5, 1, 2).format_yymmdd(), "950102");
    assert_eq!(ymd(0, 1, 2).format_iso(), "0000-01-02");
    assert!(d.le(&d) && d.same(&d));
    assert!(d.le(&ymd(2023, 4, 10)) && !ymd(2023, 4, 10).le(&d));
    assert!(ymd(2022, 12, 31).le(&d) && ymd(2023, 3, 31).le(&d));
    assert_eq!(d.min(ymd(2023, 1, 1)), ymd(2023, 1, 1));
    assert_eq!(d.max(ymd(2023, 1, 1)), d);
    assert_eq!(Date::parse_from_str("09.04.2023", "%d.%m.%Y").unwrap(), d);
    assert_eq!(Date::parse_from_str("2023-04-09", "%Y-%m-%d").unwrap(), d);
    assert!(Date::parse_from_str("2023-04-31", "%Y-%m-%d").is_err());
}

#[test]
fn clock() {
    let t = Timestamp::new(ymd(2024, 3, 5), 7, 8, 9).unwrap();
    assert_eq!(t.date(), ymd(2024, 3, 5));
    assert_eq!(t.format_dotted(), "05.03.2024");
    assert_eq!(t.format_clock(), "07:08:09");
    assert_eq!(t.format_compact(), "20240305070809");
    assert_eq!(t.format_iso(), "2024-03-05T07:08:09");
    assert!(Timestamp::new(ymd(2024, 3, 5), 24, 0, 0).is_none());
    assert!(Timestamp::new(ymd(2024, 3, 5), 0, 60, 0).is_none());
    assert!(Timestamp::new(ymd(2024, 3, 5), 0, 0, 60).is_none());
    assert_eq!(
        Timestamp::parse_from_str("2024-03-05T07:08:09", "%Y-%m-%dT%H:%M:%S").unwrap(),
        t
    );
    assert!(Timestamp::parse_from_str("2024-03-05", "%Y-%m-%dT%H:%M:%S").is_err());
    let now = Timestamp::now();
    assert!(now.date().year() >= 2024);
    assert!(ymd(2024, 1, 1).le(&now.date()));
}

#[test]
fn listing_line() {
    let tx = Transaction::new(
        ymd(2023, 4, 19),
        Some(ymd(2023, 4, 18)),
        12_345,
        Direction::Credit,
        "Invoice".to_string(),
        Some("ACC".to_string()),
        None,
    );
    assert_eq!(tx.to_text(), "2023-04-19 2023-04-18 Credit           12345 ACC  Invoice");
    let tx = Transaction::new(ymd(2023, 4, 19), None, 0, Direction::Debit, String::new(), None, None);
    assert_eq!(tx.to_text(), "2023-04-19            Debit               0   ");
}
