use parser::camt053::models::Camt053Document;
use parser::camt053::Camt053Data;
use parser::csv_parser::CsvData;
use parser::date::{Date, Timestamp};
use parser::error::ParseError;
use parser::model::{Currency, Direction, Statement, Transaction};
use parser::mt940::utils::{
    find_counterparty_in_lines, find_iban_and_name_in_lines, split_free_text,
};
use parser::mt940::{
    build_description, extract_counterparty_from_mt940, Mt940Data, Mt940Entry, Mt940Message,
};
use parser::serialization::common::{format_amount, format_minor_units};
use parser::utils::parse_amount;

fn day(y: i32, m: u32, d: u32) -> Date {
    Date::from_ymd_opt(y, m, d).unwrap()
}

fn made_at() -> Timestamp {
    Timestamp::new(day(2024, 3, 5), 7, 8, 9).unwrap()
}

fn sample() -> Statement {
    let rent = Transaction::new(
        day(2023, 4, 19),
        Some(day(2023, 4, 18)),
        125_050,
        Direction::Debit,
        "Rent for April".to_string(),
        Some("DE89370400440532013000".to_string()),
        Some("Landlord GmbH".to_string()),
    );
    let salary = Transaction::new(
        day(2023, 4, 25),
        None,
        300_000,
        Direction::Credit,
        "Salary".to_string(),
        None,
        None,
    );
    let fee = Transaction::new(
        day(2023, 4, 30),
        None,
        5,
        Direction::Debit,
        String::new(),
        None,
        None,
    );
    Statement::new(
        "DE11112222333344445555".to_string(),
        Some("Main account".to_string()),
        Currency::EUR,
        Some(-10_000),
        Some(164_945),
        vec![rent, salary, fee],
        day(2023, 4, 1),
        day(2023, 4, 30),
    )
}

const MT940_INPUT: &str = "{1:F01BANKDEFFXXXX0000000000}{2:O9400000000000BANKDEFFXXXX}{4:\r\n\
:20:STMT-1\r\n\
:25:107048825\r\n\
:28C:49/2\r\n\
:60M:C250218USD2732398848,02\r\n\
:61:2502180218D12,01NTRFGSLNVSHSUTKWDR//GI-7841\r\n\
:86:/EREF/GSLNVSHSUTKWDR\r\n\
/CRNM/GOLDMAN SACHS BANK USA\r\n\
:61:2502180218C65,00NTRFREF2//BANK2 extra words\r\n\
:86:Invoice 17\r\n\
:61:250218D1,5\r\n\
:70:not a tag we know\r\n\
:62M:C250218USD2732398900,51\r\n\
-}\r\n";

#[test]
fn mt940_text_is_decoded() {
    let data = Mt940Data::parse(MT940_INPUT).unwrap();
    let stmt = Statement::try_from(data).unwrap();
    assert_eq!(stmt.account_id, "107048825");
    assert_eq!(stmt.account_name, None);
    assert_eq!(stmt.currency, Currency::USD);
    assert_eq!(stmt.opening_balance, Some(273_239_884_802));
    assert_eq!(stmt.closing_balance, Some(273_239_890_051));
    assert_eq!(stmt.period_from, day(2025, 2, 18));
    assert_eq!(stmt.period_until, day(2025, 2, 18));
    assert_eq!(stmt.transactions.len(), 3);
    let first = &stmt.transactions[0];
    assert_eq!(first.direction, Direction::Debit);
    assert_eq!(first.amount, 1201);
    assert_eq!(first.booking_date, day(2025, 2, 18));
    assert_eq!(first.value_date, Some(day(2025, 2, 18)));
    assert_eq!(
        first.description,
        "NTRF | GSLNVSHSUTKWDR | //GI-7841 | /EREF/GSLNVSHSUTKWDR /CRNM/GOLDMAN SACHS BANK USA"
    );
    assert_eq!(first.counterparty, None);
    let second = &stmt.transactions[1];
    assert_eq!(second.direction, Direction::Credit);
    assert_eq!(second.amount, 6500);
    assert_eq!(second.description, "NTRF | REF2 | //BANK2 | extra words | Invoice 17");
    let third = &stmt.transactions[2];
    assert_eq!(third.amount, 150);
    assert_eq!(third.description, ":61:250218D1,5");
}

#[test]
fn mt940_decode_encode_decode_is_stable() {
    let first = Statement::try_from(Mt940Data::parse(MT940_INPUT).unwrap()).unwrap();
    let text = first.write_mt940();
    let second = Statement::try_from(Mt940Data::parse(&text).unwrap()).unwrap();
    assert_eq!(first.account_id, second.account_id);
    assert_eq!(first.currency, second.currency);
    assert_eq!(first.opening_balance, second.opening_balance);
    assert_eq!(first.closing_balance, second.closing_balance);
    assert_eq!(first.period_from, second.period_from);
    assert_eq!(first.period_until, second.period_until);
    assert_eq!(first.transactions.len(), second.transactions.len());
    for (a, b) in first.transactions.iter().zip(second.transactions.iter()) {
        assert_eq!(a.booking_date, b.booking_date);
        assert_eq!(a.value_date, b.value_date);
        assert_eq!(a.amount, b.amount);
        assert_eq!(a.direction, b.direction);
        assert_eq!(a.description, b.description);
        assert_eq!(a.counterparty, b.counterparty);
        assert_eq!(a.counterparty_name, b.counterparty_name);
    }
}

const MT940_WITH_PARTIES: &str = "{4:\n\
:20:STMT-2\n\
:25:DE11112222333344445555\n\
:28C:7/1\n\
:60F:C230401EUR10,00\n\
:61:2304180419D1250,50NTRFREF7//BANK7\n\
:86:DE89370400440532013000 Landlord GmbH\n\
Rent for April\n\
:61:2304200420C1,00NMSC\n\
:86:nl91abna0417164300\n\
:61:2304210421C2,00NMSC\n\
:86:Refund c/o Miller // see letter\n\
:62F:D230430EUR1239,50\n\
-}\n";

#[test]
fn mt940_decode_encode_decode_keeps_the_parties() {
    let first = Statement::try_from(Mt940Data::parse(MT940_WITH_PARTIES).unwrap()).unwrap();
    assert_eq!(
        first.transactions[0].description,
        "NTRF | REF7 | //BANK7 | DE89370400440532013000 Landlord GmbH Rent for April"
    );
    assert_eq!(first.transactions[0].counterparty.as_deref(), Some("DE89370400440532013000"));
    assert_eq!(first.transactions[0].counterparty_name.as_deref(), Some("Landlord GmbH"));
    assert_eq!(first.transactions[1].description, "NMSC | nl91abna0417164300");
    assert_eq!(first.transactions[1].counterparty.as_deref(), Some("NL91ABNA0417164300"));
    assert_eq!(first.transactions[1].counterparty_name, None);
    assert_eq!(first.transactions[2].description, "NMSC | Refund c/o Miller // see letter");
    assert_eq!(first.transactions[2].counterparty, None);
    let text = first.write_mt940();
    assert!(text.contains(
        ":86:DE89370400440532013000 Landlord GmbH // NTRF | REF7 | //BANK7 | \
         DE89370400440532013000 Landlord GmbH Rent for April\n"
    ));
    assert!(text.contains(":86:NL91ABNA0417164300 // NMSC | nl91abna0417164300\n"));
    assert!(text.contains(":86:NMSC | Refund c/o Miller // see letter\n"));
    let second = Statement::try_from(Mt940Data::parse(&text).unwrap()).unwrap();
    assert_eq!(first.account_id, second.account_id);
    assert_eq!(first.currency, second.currency);
    assert_eq!(first.opening_balance, second.opening_balance);
    assert_eq!(first.closing_balance, second.closing_balance);
    assert_eq!(first.period_from, second.period_from);
    assert_eq!(first.period_until, second.period_until);
    assert_eq!(first.transactions.len(), second.transactions.len());
    for (a, b) in first.transactions.iter().zip(second.transactions.iter()) {
        assert_eq!(a.booking_date, b.booking_date);
        assert_eq!(a.value_date, b.value_date);
        assert_eq!(a.amount, b.amount);
        assert_eq!(a.direction, b.direction);
        assert_eq!(a.description, b.description);
        assert_eq!(a.counterparty, b.counterparty);
        assert_eq!(a.counterparty_name, b.counterparty_name);
    }
}

#[test]
fn a_counterparty_behind_the_mark_is_found() {
    let mut entry = Mt940Entry::from_61_line("2301010102C100,00", String::new()).unwrap();
    entry.push_info_line("pay // DE89370400440532013000 ACME");
    let (id, name) = extract_counterparty_from_mt940(&entry);
    assert_eq!(id.as_deref(), Some("DE89370400440532013000"));
    assert_eq!(name.as_deref(), Some("ACME"));
    assert_eq!(build_description(&entry), "pay // DE89370400440532013000 ACME");

    let mut entry = Mt940Entry::from_61_line("2301010102C100,00", String::new()).unwrap();
    entry.push_info_line("see // letter");
    entry.push_info_line("to DE89370400440532013000");
    entry.push_info_line("ACME // Ltd");
    let (id, name) = extract_counterparty_from_mt940(&entry);
    assert_eq!(id.as_deref(), Some("DE89370400440532013000"));
    assert_eq!(name.as_deref(), Some("ACME // Ltd"));
    assert_eq!(build_description(&entry), "see // letter to DE89370400440532013000 ACME // Ltd");

    let mut entry = Mt940Entry::from_61_line("2301010102C100,00", String::new()).unwrap();
    entry.push_info_line("DE89370400440532013000 ACME // pay NL91ABNA0417164300 now");
    let (id, name) = extract_counterparty_from_mt940(&entry);
    assert_eq!(id.as_deref(), Some("DE89370400440532013000"));
    assert_eq!(name.as_deref(), Some("ACME"));
    assert_eq!(build_description(&entry), "pay NL91ABNA0417164300 now");

    let mut entry = Mt940Entry::from_61_line("2301010102C100,00", String::new()).unwrap();
    entry.push_info_line("DE89370400440532013000 // rent");
    entry.push_info_line("NL91ABNA0417164300 Bob");
    let (id, name) = extract_counterparty_from_mt940(&entry);
    assert_eq!(id.as_deref(), Some("DE89370400440532013000"));
    assert_eq!(name, None);
    assert_eq!(build_description(&entry), "rent NL91ABNA0417164300 Bob");
    let lines = vec![
        "DE89370400440532013000 // rent".to_string(),
        "NL91ABNA0417164300 Bob".to_string(),
    ];
    assert_eq!(
        find_counterparty_in_lines(&lines),
        Some(("DE89370400440532013000".to_string(), None))
    );
    assert_eq!(
        find_iban_and_name_in_lines(&lines),
        Some(("DE89370400440532013000".to_string(), Some("// rent".to_string())))
    );
    let mut entry = Mt940Entry::from_61_line("2301010102C100,00", String::new()).unwrap();
    entry.push_info_line("to DE89370400440532013000 Bob");
    entry.push_info_line("NL91ABNA0417164300 // x");
    let (id, name) = extract_counterparty_from_mt940(&entry);
    assert_eq!(id.as_deref(), Some("DE89370400440532013000"));
    assert_eq!(name.as_deref(), Some("Bob"));
    assert_eq!(
        build_description(&entry),
        "to DE89370400440532013000 Bob NL91ABNA0417164300 // x"
    );
    let lines = vec!["to DE89370400440532013000".to_string(), "Bob // Ltd".to_string()];
    assert_eq!(find_counterparty_in_lines(&lines), find_iban_and_name_in_lines(&lines));
    assert_eq!(
        find_counterparty_in_lines(&lines),
        Some(("DE89370400440532013000".to_string(), Some("Bob // Ltd".to_string())))
    );
    assert_eq!(find_counterparty_in_lines(&[]), None);

    let text = "{4:\n:25:ACC\n:60F:C230101EUR1,00\n:61:2301010102C100,00\n\
                :86:pay // DE89370400440532013000 ACME\n:62F:C230102EUR101,00\n-}\n";
    let first = Statement::try_from(Mt940Data::parse(text).unwrap()).unwrap();
    let tx = &first.transactions[0];
    assert_eq!(tx.counterparty.as_deref(), Some("DE89370400440532013000"));
    assert_eq!(tx.counterparty_name.as_deref(), Some("ACME"));
    assert_eq!(tx.description, "pay // DE89370400440532013000 ACME");
    let second = Statement::try_from(Mt940Data::parse(&first.write_mt940()).unwrap()).unwrap();
    assert_eq!(second.transactions[0].counterparty, tx.counterparty);
    assert_eq!(second.transactions[0].counterparty_name, tx.counterparty_name);
    assert_eq!(second.transactions[0].description, tx.description);
}

#[test]
fn free_text_is_split_behind_a_counterparty() {
    assert_eq!(
        split_free_text("DE89370400440532013000 Landlord GmbH // Rent // April"),
        ("DE89370400440532013000 Landlord GmbH".to_string(), "Rent // April".to_string())
    );
    assert_eq!(
        split_free_text("Refund c/o Miller // see letter"),
        (
            "Refund c/o Miller // see letter".to_string(),
            "Refund c/o Miller // see letter".to_string()
        )
    );
    assert_eq!(
        split_free_text("pay // DE89370400440532013000 ACME"),
        (
            "pay // DE89370400440532013000 ACME".to_string(),
            "pay // DE89370400440532013000 ACME".to_string()
        )
    );
    assert_eq!(
        split_free_text("DE89370400440532013000 Landlord GmbH"),
        (
            "DE89370400440532013000 Landlord GmbH".to_string(),
            "DE89370400440532013000 Landlord GmbH".to_string()
        )
    );
    assert_eq!(
        split_free_text("DE89370400440532013000 //x // y"),
        ("DE89370400440532013000 //x".to_string(), "y".to_string())
    );
    assert_eq!(split_free_text(""), (String::new(), String::new()));
}

#[test]
fn tag_lines_that_are_passed_over_are_handed_back() {
    let (data, count, skipped) = Mt940Data::parse_noting(MT940_INPUT).unwrap();
    assert_eq!(count, 1);
    assert_eq!(data.message.account_id, "107048825");
    assert_eq!(skipped, vec![":70:not a tag we know".to_string()]);
    let text = "{4:\n:25:A\n:60F:C230101EUR1,00\n:60M:C230102EUR2,00\n:NS:x\n-}\n\
                {4:\n:25:B\n:21:y\n:60M:D230101EUR3,00\n:60F:D230101EUR3,00\n-}\n";
    let (data, count, skipped) = Mt940Data::parse_noting(text).unwrap();
    assert_eq!(count, 2);
    assert_eq!(data.message.account_id, "A");
    assert_eq!(data.message.opening_balance.amount, "1,00");
    assert_eq!(
        skipped,
        vec![":60M:C230102EUR2,00", ":NS:x", ":21:y", ":60F:D230101EUR3,00"]
    );
    let (_, count) = Mt940Data::parse_counting(text).unwrap();
    assert_eq!(count, 2);
    let (_, _, skipped) = Mt940Data::parse_noting(&sample().write_mt940()).unwrap();
    assert!(skipped.is_empty());
    let lines = vec![":25:A".to_string(), ":99:z".to_string(), ":60F:C230101EUR1,00".to_string()];
    let (message, skipped) = Mt940Message::from_string_lines_noting(&lines).unwrap();
    assert_eq!(message.account_id, "A");
    assert_eq!(skipped, vec![":99:z"]);
    assert!(Mt940Message::from_string_lines(&lines).is_ok());
}

#[test]
fn a_period_that_ends_before_it_begins_is_refused() {
    let text = "{4:\n:25:ACC\n:60F:C230201EUR1,00\n:62F:C230131EUR1,00\n-}\n";
    let data = Mt940Data::parse(text).unwrap();
    assert!(matches!(Statement::try_from(data), Err(ParseError::BadInput(_))));
    let text = "{4:\n:25:ACC\n:60F:C230201EUR1,00\n:61:2301310131C1,00\n-}\n";
    let data = Mt940Data::parse(text).unwrap();
    assert!(matches!(Statement::try_from(data), Err(ParseError::BadInput(_))));
    let text = "{4:\n:25:ACC\n:60F:C230201EUR1,00\n:62F:C230201EUR1,00\n-}\n";
    let back = Statement::try_from(Mt940Data::parse(text).unwrap()).unwrap();
    assert!(back.has_ordered_period());

    let mut reversed = sample();
    reversed.period_from = day(2023, 5, 1);
    assert!(!reversed.has_ordered_period());
    let data = Mt940Data::parse(&reversed.write_mt940()).unwrap();
    assert!(matches!(Statement::try_from(data), Err(ParseError::BadInput(_))));
    let csv = reversed.write_csv_at(made_at()).unwrap();
    let data = CsvData::parse(csv.as_bytes()).unwrap();
    assert!(matches!(Statement::try_from(data), Err(ParseError::Header(_))));
    let data = Camt053Data::from_document(reversed.write_camt053_at(made_at())).unwrap();
    assert!(matches!(Statement::try_from(data), Err(ParseError::BadInput(_))));
}

#[test]
fn mt940_text_of_a_statement() {
    let text = sample().write_mt940();
    assert_eq!(
        text,
        "{4:\n\
         :20:SERIALIZED\n\
         :25:DE11112222333344445555\n\
         :28C:1/1\n\
         :60F:D230401EUR100,00\n\
         :61:2304180419D1250,50\n\
         :86:DE89370400440532013000 Landlord GmbH // Rent for April\n\
         :61:2304250425C3000,00\n\
         :86:Salary\n\
         :61:2304300430D0,05\n\
         :62F:C230430EUR1649,45\n\
         -}\n"
    );
}

#[test]
fn mt940_encode_then_decode_keeps_the_statement() {
    let statement = sample();
    let text = statement.write_mt940();
    let (data, count) = Mt940Data::parse_counting(&text).unwrap();
    assert_eq!(count, 1);
    let back = Statement::try_from(data).unwrap();
    assert_eq!(back.account_id, statement.account_id);
    assert_eq!(back.currency, statement.currency);
    assert_eq!(back.opening_balance, statement.opening_balance);
    assert_eq!(back.closing_balance, statement.closing_balance);
    assert_eq!(back.period_from, statement.period_from);
    assert_eq!(back.period_until, statement.period_until);
    assert_eq!(back.transactions.len(), 3);
    for (a, b) in statement.transactions.iter().zip(back.transactions.iter()) {
        assert_eq!(a.booking_date, b.booking_date);
        assert_eq!(Some(a.value_date.unwrap_or(a.booking_date)), b.value_date);
        assert_eq!(a.amount, b.amount);
        assert_eq!(a.direction, b.direction);
    }
    assert_eq!(
        back.transactions[0].counterparty.as_deref(),
        Some("DE89370400440532013000")
    );
    assert_eq!(back.transactions[0].counterparty_name.as_deref(), Some("Landlord GmbH"));
    assert_eq!(back.transactions[0].description, "Rent for April");
    assert_eq!(back.transactions[1].description, "Salary");
    assert_eq!(back.transactions[1].counterparty, None);
    assert_eq!(back.transactions[1].counterparty_name, None);
    assert_eq!(back.transactions[2].description, ":61:2304300430D0,05");
    assert_eq!(back.transactions[2].counterparty, None);

    let mut unnamed = sample();
    unnamed.transactions[0].counterparty_name = None;
    unnamed.transactions[0].description = "Rent // April, DE02120300000000202051".to_string();
    let text = unnamed.write_mt940();
    let back = Statement::try_from(Mt940Data::parse(&text).unwrap()).unwrap();
    assert_eq!(back.transactions[0].counterparty, unnamed.transactions[0].counterparty);
    assert_eq!(back.transactions[0].counterparty_name, None);
    assert_eq!(back.transactions[0].description, unnamed.transactions[0].description);
}

#[test]
fn csv_encode_then_decode_keeps_the_statement() {
    let statement = sample();
    let text = statement.write_csv_at(made_at()).unwrap();
    let data = CsvData::parse(text.as_bytes()).unwrap();
    let back = Statement::try_from(data).unwrap();
    assert_eq!(back.account_id, statement.account_id);
    assert_eq!(back.account_name, statement.account_name);
    assert_eq!(back.currency, statement.currency);
    assert_eq!(back.opening_balance, statement.opening_balance);
    assert_eq!(back.closing_balance, statement.closing_balance);
    assert_eq!(back.period_from, statement.period_from);
    assert_eq!(back.period_until, statement.period_until);
    assert_eq!(back.transactions.len(), 3);
    for (a, b) in statement.transactions.iter().zip(back.transactions.iter()) {
        assert_eq!(a.booking_date, b.booking_date);
        assert_eq!(b.value_date, None);
        assert_eq!(a.amount, b.amount);
        assert_eq!(a.direction, b.direction);
        assert_eq!(a.description, b.description);
        assert_eq!(a.counterparty, b.counterparty);
        assert_eq!(a.counterparty_name, b.counterparty_name);
    }
}

#[test]
fn csv_text_quotes_what_needs_quoting() {
    let text = sample().write_csv_at(made_at()).unwrap();
    let lines: Vec<&str> = text.split('\n').collect();
    assert_eq!(lines[0], ",05.03.2024,,,,,,,,,,,,,,,,,,,,,");
    assert!(text.contains(",\"DE11112222333344445555\n-\nMain account\","));
    assert!(text.contains("Дата формирования выписки 05.03.2024 в 07:08:09"));
    assert!(text.contains(",\"0,00\",,,,1649.45,"));
}

#[test]
fn csv_written_now_is_decoded() {
    let statement = sample();
    let text = statement.write_csv().unwrap();
    let back = Statement::try_from(CsvData::parse(text.as_bytes()).unwrap()).unwrap();
    assert_eq!(back.account_id, statement.account_id);
    assert_eq!(back.transactions.len(), 3);
}

fn camt_back(doc: Camt053Document) -> Statement {
    assert_eq!(doc.statement_count(), 1);
    Statement::try_from(Camt053Data::from_document(doc).unwrap()).unwrap()
}

#[test]
fn camt_encode_then_decode_keeps_the_statement() {
    let statement = sample();
    let doc = statement.write_camt053_at(made_at());
    let header = doc.bank_to_customer.group_header.as_ref().unwrap();
    assert_eq!(header.message_id, "serialized_via_parser-20240305070809");
    assert_eq!(header.created_at.as_deref(), Some("2024-03-05T07:08:09"));
    assert_eq!(
        doc.bank_to_customer.statements[0].id.as_deref(),
        Some("stmt-DE11112222333344445555-20240305070809")
    );
    let back = camt_back(doc);
    assert_eq!(back.account_id, statement.account_id);
    assert_eq!(back.account_name, statement.account_name);
    assert_eq!(back.currency, statement.currency);
    assert_eq!(back.opening_balance, statement.opening_balance);
    assert_eq!(back.closing_balance, statement.closing_balance);
    assert_eq!(back.period_from, statement.period_from);
    assert_eq!(back.period_until, statement.period_until);
    assert_eq!(back.transactions.len(), 3);
    for (a, b) in statement.transactions.iter().zip(back.transactions.iter()) {
        assert_eq!(a.booking_date, b.booking_date);
        assert_eq!(Some(a.value_date.unwrap_or(a.booking_date)), b.value_date);
        assert_eq!(a.amount, b.amount);
        assert_eq!(a.direction, b.direction);
        assert_eq!(a.description, b.description);
        assert_eq!(a.counterparty, b.counterparty);
        assert_eq!(a.counterparty_name, b.counterparty_name);
    }
}

#[test]
fn camt_written_now_is_decoded() {
    let statement = sample();
    let back = camt_back(statement.write_camt053());
    assert_eq!(back.account_id, statement.account_id);
    assert_eq!(back.transactions.len(), 3);
}

#[test]
fn camt_to_csv_to_mt940_keeps_core_data() {
    let statement = camt_back(sample().write_camt053_at(made_at()));
    let csv = statement.write_csv_at(made_at()).unwrap();
    let from_csv = Statement::try_from(CsvData::parse(csv.as_bytes()).unwrap()).unwrap();
    let mt940 = from_csv.write_mt940();
    let last = Statement::try_from(Mt940Data::parse(&mt940).unwrap()).unwrap();
    assert_eq!(statement.account_id, last.account_id);
    assert_eq!(statement.currency, last.currency);
    assert_eq!(statement.opening_balance, last.opening_balance);
    assert_eq!(statement.closing_balance, last.closing_balance);
    assert_eq!(statement.period_from, last.period_from);
    assert_eq!(statement.period_until, last.period_until);
    assert_eq!(statement.transactions.len(), last.transactions.len());
    for (a, b) in statement.transactions.iter().zip(last.transactions.iter()) {
        assert_eq!(a.booking_date, b.booking_date);
        assert_eq!(a.amount, b.amount);
        assert_eq!(a.direction, b.direction);
    }
}

#[test]
fn amounts_are_stable_under_writing_and_reading() {
    for text in ["0", "1", "1.2", "1,23", "1 234,56", "1,234.56", " 42 ", "18446744073709551.15"] {
        let amount = parse_amount(text).unwrap();
        for separator in ['.', ','] {
            let written = format_minor_units(amount, separator);
            assert_eq!(parse_amount(&written).unwrap(), amount);
        }
    }
    assert_eq!(parse_amount("1,234.56").unwrap(), 123_456);
    assert_eq!(parse_amount("1 234,56").unwrap(), 123_456);
    assert_eq!(format_minor_units(u64::MAX, '.'), "184467440737095516.15");
    assert_eq!(format_amount(u64::MAX, '.'), "184467440737095516.15");
    assert_eq!(format_amount(0, ','), "0,00");
    assert_eq!(format_amount(12_345, ','), "123,45");
    assert_eq!(format_amount(7, '.'), "0.07");
    assert_eq!(parse_amount("184467440737095516.15").unwrap(), u64::MAX);
}

#[test]
fn balances_have_the_sign_of_their_mark() {
    let text = "{4:\n:25:ACC\n:60F:D230101EUR100,00\n:62F:C230131EUR0,01\n-}\n";
    let stmt = Statement::try_from(Mt940Data::parse(text).unwrap()).unwrap();
    assert_eq!(stmt.opening_balance, Some(-10_000));
    assert_eq!(stmt.closing_balance, Some(1));
    assert!(stmt.has_ordered_period());
}

#[test]
fn what_does_not_survive_an_mt940_message() {
    let mut s = sample();
    s.account_id = "two\nlines".to_string();
    let back = Statement::try_from(Mt940Data::parse(&s.write_mt940()).unwrap()).unwrap();
    assert_eq!(back.account_id, "two");
    let mut s = sample();
    s.period_from = day(1979, 4, 1);
    let data = Mt940Data::parse(&s.write_mt940()).unwrap();
    assert_eq!(data.message.opening_balance.date, "790401");
    assert!(matches!(Statement::try_from(data), Err(ParseError::BadInput(_))));
    let mut s = sample();
    s.period_from = day(1979, 4, 1);
    s.period_until = day(1979, 4, 30);
    let back = Statement::try_from(Mt940Data::parse(&s.write_mt940()).unwrap()).unwrap();
    assert_eq!(back.period_from, day(2079, 4, 1));
    assert_eq!(back.period_until, day(2079, 4, 30));
    let mut s = sample();
    s.transactions[0].value_date = Some(day(2022, 12, 31));
    let back = Statement::try_from(Mt940Data::parse(&s.write_mt940()).unwrap()).unwrap();
    assert_eq!(back.transactions[0].booking_date, day(2022, 4, 19));
    let mut s = sample();
    s.currency = Currency::Other("GBP".to_string());
    let back = Statement::try_from(Mt940Data::parse(&s.write_mt940()).unwrap()).unwrap();
    assert_eq!(back.currency, Currency::Other("XXX".to_string()));
    let mut s = sample();
    s.opening_balance = None;
    let back = Statement::try_from(Mt940Data::parse(&s.write_mt940()).unwrap()).unwrap();
    assert_eq!(back.opening_balance, Some(0));
    let mut s = sample();
    s.transactions[0].description = String::new();
    let back = Statement::try_from(Mt940Data::parse(&s.write_mt940()).unwrap()).unwrap();
    assert_eq!(back.transactions[0].description, "DE89370400440532013000 Landlord GmbH");
    assert_eq!(back.transactions[0].counterparty, s.transactions[0].counterparty);
    assert_eq!(back.transactions[0].counterparty_name, s.transactions[0].counterparty_name);
    let mut s = sample();
    s.transactions[0].counterparty = Some("107048825".to_string());
    let back = Statement::try_from(Mt940Data::parse(&s.write_mt940()).unwrap()).unwrap();
    assert_eq!(back.transactions[0].counterparty, None);
    assert_eq!(back.transactions[0].counterparty_name, None);
    assert_eq!(back.transactions[0].description, "107048825 Landlord GmbH // Rent for April");
    let mut s = sample();
    s.transactions[0].counterparty_name = Some("Landlord  GmbH".to_string());
    let back = Statement::try_from(Mt940Data::parse(&s.write_mt940()).unwrap()).unwrap();
    assert_eq!(back.transactions[0].counterparty_name.as_deref(), Some("Landlord GmbH"));
    let mut s = sample();
    s.transactions[1].description = "to DE89370400440532013000".to_string();
    let back = Statement::try_from(Mt940Data::parse(&s.write_mt940()).unwrap()).unwrap();
    assert_eq!(back.transactions[1].counterparty.as_deref(), Some("DE89370400440532013000"));
    assert_eq!(back.transactions[1].description, "to DE89370400440532013000");
}

#[test]
fn what_does_not_survive_a_csv_export() {
    let mut s = sample();
    s.transactions[1].description = "б/с".to_string();
    let text = s.write_csv_at(made_at()).unwrap();
    let data = CsvData::parse(text.as_bytes()).unwrap();
    assert_eq!(data.records.len(), 1);
    let mut s = sample();
    s.account_name = Some("Дата проводки".to_string());
    let text = s.write_csv_at(made_at()).unwrap();
    assert!(CsvData::parse(text.as_bytes()).is_err());
    let mut s = sample();
    s.closing_balance = None;
    let text = s.write_csv_at(made_at()).unwrap();
    assert!(CsvData::parse(text.as_bytes()).is_err());
    let mut s = sample();
    s.transactions[0].counterparty_name = Some("-".to_string());
    let text = s.write_csv_at(made_at()).unwrap();
    let back = Statement::try_from(CsvData::parse(text.as_bytes()).unwrap()).unwrap();
    assert_eq!(back.transactions[0].counterparty, s.transactions[0].counterparty);
    assert_eq!(back.transactions[0].counterparty_name, None);
    let mut s = sample();
    s.transactions[0].counterparty = None;
    let text = s.write_csv_at(made_at()).unwrap();
    let back = Statement::try_from(CsvData::parse(text.as_bytes()).unwrap()).unwrap();
    assert_eq!(back.transactions[0].counterparty.as_deref(), Some("-"));
    assert_eq!(back.transactions[0].counterparty_name, None);
}

#[test]
fn a_counterparty_without_a_name_survives_a_csv_export() {
    let mut s = sample();
    s.transactions[0].counterparty_name = None;
    let text = s.write_csv_at(made_at()).unwrap();
    assert!(text.contains(",\"DE89370400440532013000\n-\n-\","));
    let back = Statement::try_from(CsvData::parse(text.as_bytes()).unwrap()).unwrap();
    assert_eq!(back.transactions[0].counterparty, s.transactions[0].counterparty);
    assert_eq!(back.transactions[0].counterparty_name, None);
    assert_eq!(back.transactions[0].description, s.transactions[0].description);
}
