use parser::date::{Date, Timestamp};
use parser::model::{Balance, Currency, Direction, Statement, Transaction};
use parser::serialization::common::format_minor_units;
use parser::serialization::csv_helpers::{
    currency_label, empty_row, format_rus_date, make_party_block, write_footer, write_header, COLS,
};

fn date(y: i32, m: u32, day: u32) -> Date {
    Date::from_ymd_opt(y, m, day).unwrap()
}

fn noon() -> Timestamp {
    Timestamp::new(date(2024, 3, 5), 12, 30, 45).unwrap()
}

#[test]
fn empty_row_has_correct_length_and_is_empty() {
    let row = empty_row();
    assert_eq!(row.len(), COLS);
    assert!(row.iter().all(|s| s.is_empty()));
}

#[test]
fn format_rus_date_formats_correctly() {
    let d = date(2023, 1, 1);
    assert_eq!(format_rus_date(d), "01 января 2023 г.");

    let d = date(1999, 12, 31);
    assert_eq!(format_rus_date(d), "31 декабря 1999 г.");
}

#[test]
fn currency_label_for_known_currencies() {
    assert_eq!(currency_label(&Currency::RUB), "Российский рубль");
    assert_eq!(currency_label(&Currency::EUR), "Евро");
    assert_eq!(currency_label(&Currency::USD), "Доллар США");
    assert_eq!(currency_label(&Currency::CNY), "Китайский юань");
}

#[test]
fn currency_label_for_other() {
    let cur = Currency::Other("Some Currency".to_string());
    assert_eq!(currency_label(&cur), "Some Currency");
}

#[test]
fn make_party_block_empty_when_no_data() {
    let block = make_party_block("", "");
    assert_eq!(block, "");
}

#[test]
fn make_party_block_with_account_and_name() {
    let block = make_party_block("40702810...", "ООО Ромашка");
    assert_eq!(block, "40702810...\n-\nООО Ромашка");
}

#[test]
fn make_party_block_with_account_only() {
    let block = make_party_block("40702810...", "");
    assert_eq!(block, "40702810...\n-\n-");
}

#[test]
fn make_party_block_with_name_only() {
    let block = make_party_block("", "ООО Ромашка");
    assert_eq!(block, "\n-\nООО Ромашка");
}

fn sample_statement() -> Statement {
    let tx1 = Transaction::new(
        date(2023, 1, 10),
        None,
        100_00,
        Direction::Debit,
        "Payment 1".to_string(),
        None,
        None,
    );

    let tx2 = Transaction::new(
        date(2023, 1, 15),
        None,
        200_00,
        Direction::Credit,
        "Payment 2".to_string(),
        None,
        None,
    );

    Statement::new(
        "40702810XXXXXXXXXXXX".to_string(),
        Some("ООО Ромашка".to_string()),
        Currency::RUB,
        Some(1_000_00),
        Some(900_00),
        vec![tx1, tx2],
        date(2023, 1, 1),
        date(2023, 1, 31),
    )
}

#[test]
fn write_header_writes_expected_rows() {
    let stmt = sample_statement();
    let mut records: Vec<Vec<String>> = Vec::new();
    write_header(&mut records, &stmt, noon());

    assert_eq!(records.len(), 9);

    let row0 = &records[0];
    assert_eq!(row0.len(), COLS);
    assert!(!row0[1].is_empty());
    assert_eq!(row0[1], "05.03.2024");

    let row1 = &records[1];
    assert_eq!(row1[5], "СберБизнес. экспорт выписки");

    let row2 = &records[2];
    assert_eq!(row2[1], "ПАО СБЕРБАНК");

    let row3 = &records[3];
    assert!(row3[1].starts_with("Дата формирования выписки "));
    assert_eq!(row3[1], "Дата формирования выписки 05.03.2024 в 12:30:45");

    let row4 = &records[4];
    assert_eq!(row4[1], "ВЫПИСКА ОПЕРАЦИЙ ПО ЛИЦЕВОМУ СЧЕТУ");
    assert_eq!(row4[12], stmt.account_id);

    let row5 = &records[5];
    assert_eq!(row5[12], stmt.account_name.clone().unwrap());

    let row6 = &records[6];
    let expected_from = format!("за период с {}", format_rus_date(stmt.period_from));
    assert_eq!(row6[2], expected_from);
    assert_eq!(row6[14], "по");
    let expected_to = format!("по {}", format_rus_date(stmt.period_until));
    assert_eq!(row6[15], expected_to);

    let row7 = &records[7];
    assert_eq!(row7[2], currency_label(&stmt.currency));

    let last_date = stmt.transactions.iter().map(|t| t.booking_date).max().unwrap();
    let expected_last = format!(
        "Дата предыдущей операции по счету {}",
        format_rus_date(last_date)
    );
    assert_eq!(row7[12], expected_last);

    let row8 = &records[8];
    assert!(row8.iter().all(|s| s.is_empty()));
}

#[test]
fn write_footer_writes_bs_counts_and_totals_and_balances() {
    let stmt = sample_statement();
    let mut records: Vec<Vec<String>> = Vec::new();
    write_footer(&mut records, &stmt);

    assert_eq!(records.len(), 5);

    let bs_row = &records[0];
    assert_eq!(bs_row[1], "б/с");
    assert_eq!(bs_row[3], stmt.account_id);
    assert_eq!(bs_row[7], "Дебет");
    assert_eq!(bs_row[11], "Кредит");
    assert_eq!(bs_row[20], "Всего");

    let debit_ops = stmt
        .transactions
        .iter()
        .filter(|t| t.direction == Direction::Debit)
        .count();
    let credit_ops = stmt
        .transactions
        .iter()
        .filter(|t| t.direction == Direction::Credit)
        .count();
    let total_ops = debit_ops + credit_ops;

    let debit_turnover: Balance = stmt
        .transactions
        .iter()
        .filter(|t| t.direction == Direction::Debit)
        .map(|t| t.amount as Balance)
        .sum();

    let credit_turnover: Balance = stmt
        .transactions
        .iter()
        .filter(|t| t.direction == Direction::Credit)
        .map(|t| t.amount as Balance)
        .sum();

    let count_row = &records[1];
    assert_eq!(count_row[1], "Количество операций");
    assert_eq!(count_row[6], debit_ops.to_string());
    assert_eq!(count_row[10], credit_ops.to_string());
    assert_eq!(count_row[20], total_ops.to_string());

    let opening_row = &records[2];
    assert_eq!(opening_row[1], "Входящий остаток");
    assert_eq!(opening_row[7], format_minor_units(0, ','));
    assert_eq!(
        opening_row[11],
        format_minor_units(stmt.opening_balance.unwrap() as u64, '.')
    );
    assert_eq!(opening_row[17], "(П)");
    assert_eq!(opening_row[19], format_rus_date(stmt.period_from));

    let total_row = &records[3];
    assert_eq!(total_row[1], "Итого оборотов");
    assert_eq!(
        total_row[7],
        format_minor_units(debit_turnover as u64, '.')
    );
    assert_eq!(
        total_row[11],
        format_minor_units(credit_turnover as u64, '.')
    );

    let closing_row = &records[4];
    assert_eq!(closing_row[1], "Исходящий остаток");
    assert_eq!(closing_row[7], format_minor_units(0, ','));
    assert_eq!(
        closing_row[11],
        format_minor_units(stmt.closing_balance.unwrap() as u64, '.')
    );
    assert_eq!(closing_row[17], "(П)");
    assert_eq!(closing_row[19], format_rus_date(stmt.period_until));
}

#[test]
fn write_footer_handles_no_balances() {
    let mut stmt = sample_statement();
    stmt.opening_balance = None;
    stmt.closing_balance = None;

    let mut records: Vec<Vec<String>> = Vec::new();
    write_footer(&mut records, &stmt);

    assert_eq!(records.len(), 3);

    assert_eq!(records[0][1], "б/с");
    assert_eq!(records[1][1], "Количество операций");
    assert_eq!(records[2][1], "Итого оборотов");
}
