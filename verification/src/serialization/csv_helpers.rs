//! The rows of a CSV export.

use crate::csv_parser::rows_view;
use crate::date::{clock_text, dotted_text, Date, Timestamp};
use crate::error::ParseError;
use crate::model::{
    latest_booking, text_or_empty, transaction_views, Balance, Currency, CurrencyView, Direction,
    Statement, StatementView, Transaction, TransactionView,
};
use crate::number::{decimal, pad2, push_decimal, push_pad2, push_signed_decimal, signed_decimal};
use crate::serialization::common::{format_amount, format_magnitude, format_units, minor_units_text};
use crate::text::{chars_of, push_str, string_of, string_views};
use vstd::prelude::*;

verus! {

/// The number of cells of every row of an export.
pub const COLS: usize = 23;

/// A row of empty cells.
pub open spec fn blank_row() -> Seq<Seq<char>> {
    Seq::new(COLS as nat, |i: int| Seq::<char>::empty())
}

/// Makes a row of empty cells.
pub fn empty_row() -> (r: Vec<String>)
    ensures
        string_views(r@) == blank_row(),
        r@.len() == COLS,
{
    let mut r: Vec<String> = Vec::new();
    let mut i: usize = 0;
    while i < COLS
        invariant
            i <= COLS,
            r@.len() == i,
            forall|k: int| 0 <= k < i ==> (#[trigger] r@[k])@ == Seq::<char>::empty(),
        decreases COLS - i,
    {
        r.push(String::new());
        i += 1;
    }
    assert(string_views(r@) =~= blank_row());
    r
}

/// Puts a text into a cell of a row.
pub fn put(row: &mut Vec<String>, col: usize, text: String)
    requires
        col < old(row)@.len(),
    ensures
        string_views(final(row)@) == string_views(old(row)@).update(col as int, text@),
        final(row)@.len() == old(row)@.len(),
{
    row.set(col, text);
    assert(string_views(row@) =~= string_views(old(row)@).update(col as int, text@));
}

/// The genitive name of a month.
pub open spec fn month_name(month: int) -> Seq<char> {
    if month == 1 {
        "января"@
    } else if month == 2 {
        "февраля"@
    } else if month == 3 {
        "марта"@
    } else if month == 4 {
        "апреля"@
    } else if month == 5 {
        "мая"@
    } else if month == 6 {
        "июня"@
    } else if month == 7 {
        "июля"@
    } else if month == 8 {
        "августа"@
    } else if month == 9 {
        "сентября"@
    } else if month == 10 {
        "октября"@
    } else if month == 11 {
        "ноября"@
    } else {
        "декабря"@
    }
}

/// A date written out: day with two digits, month name, year, and `г.`.
pub open spec fn rus_date_text(d: (int, int, int)) -> Seq<char> {
    pad2(d.2 as nat) + " "@ + month_name(d.1) + " "@ + signed_decimal(d.0) + " г."@
}

/// Writes a date out with the name of its month.
pub fn format_rus_date(d: Date) -> (r: String)
    ensures
        r@ == rus_date_text(d@),
{
    let month = d.month();
    let name = if month == 1 {
        "января"
    } else if month == 2 {
        "февраля"
    } else if month == 3 {
        "марта"
    } else if month == 4 {
        "апреля"
    } else if month == 5 {
        "мая"
    } else if month == 6 {
        "июня"
    } else if month == 7 {
        "июля"
    } else if month == 8 {
        "августа"
    } else if month == 9 {
        "сентября"
    } else if month == 10 {
        "октября"
    } else if month == 11 {
        "ноября"
    } else {
        "декабря"
    };
    let mut out: Vec<char> = Vec::new();
    push_pad2(&mut out, d.day() as u128);
    push_str(&mut out, " ");
    push_str(&mut out, name);
    push_str(&mut out, " ");
    push_signed_decimal(&mut out, d.year() as i64);
    push_str(&mut out, " г.");
    assert(out@ =~= rus_date_text(d@));
    string_of(out.as_slice())
}

/// The name under which the export writes a currency; one outside the
/// table keeps the name it came with.
pub open spec fn currency_label_text(cur: CurrencyView) -> Seq<char> {
    match cur {
        CurrencyView::RUB => "Российский рубль"@,
        CurrencyView::EUR => "Евро"@,
        CurrencyView::USD => "Доллар США"@,
        CurrencyView::CNY => "Китайский юань"@,
        CurrencyView::Other(s) => s,
    }
}

/// The name under which the export writes a currency.
pub fn currency_label(cur: &Currency) -> (r: String)
    ensures
        r@ == currency_label_text(cur@),
{
    match cur {
        Currency::RUB => "Российский рубль".to_string(),
        Currency::EUR => "Евро".to_string(),
        Currency::USD => "Доллар США".to_string(),
        Currency::CNY => "Китайский юань".to_string(),
        Currency::Other(s) => s.clone(),
    }
}

/// The cell that names a party: account, a dash, and the name or a dash in
/// its place, on three lines; empty where neither account nor name is known.
pub open spec fn party_block(account: Seq<char>, name: Seq<char>) -> Seq<char> {
    if account.len() == 0 && name.len() == 0 {
        Seq::empty()
    } else {
        account + "\n-\n"@ + (if name.len() == 0 {
            "-"@
        } else {
            name
        })
    }
}

/// Makes the cell that names a party.
pub fn make_party_block(account: &str, name: &str) -> (r: String)
    ensures
        r@ == party_block(account@, name@),
{
    let account_chars = chars_of(account);
    let name_chars = chars_of(name);
    if account_chars.len() == 0 && name_chars.len() == 0 {
        return String::new();
    }
    let mut out = account_chars;
    push_str(&mut out, "\n-\n");
    if name_chars.len() == 0 {
        push_str(&mut out, "-");
    } else {
        push_str(&mut out, name);
    }
    string_of(out.as_slice())
}

/// The nine rows of the header block: the day of writing; the system; the
/// bank; day and time of writing; title and account; the account's name;
/// the period; the currency and the day of the latest transaction; and an
/// empty row.
pub open spec fn header_rows(s: StatementView, day: (int, int, int), clock: (int, int, int)) -> Seq<
    Seq<Seq<char>>,
> {
    let last = if s.transactions.len() > 0 {
        "Дата предыдущей операции по счету "@ + rus_date_text(
            latest_booking(s.transactions, s.transactions.len() as int, s.period_from),
        )
    } else {
        Seq::empty()
    };
    seq![
        blank_row().update(1, dotted_text(day)),
        blank_row().update(5, "СберБизнес. экспорт выписки"@),
        blank_row().update(1, "ПАО СБЕРБАНК"@),
        blank_row().update(
            1,
            "Дата формирования выписки "@ + dotted_text(day) + " в "@ + clock_text(clock),
        ),
        blank_row().update(1, "ВЫПИСКА ОПЕРАЦИЙ ПО ЛИЦЕВОМУ СЧЕТУ"@).update(12, s.account_id),
        blank_row().update(
            12,
            match s.account_name {
                Some(n) => n,
                None => Seq::empty(),
            },
        ),
        blank_row().update(2, "за период с "@ + rus_date_text(s.period_from)).update(
            14,
            "по"@,
        ).update(15, "по "@ + rus_date_text(s.period_until)),
        blank_row().update(2, currency_label_text(s.currency)).update(12, last),
        blank_row(),
    ]
}

fn labelled(label: &str, text: &str) -> (r: String)
    ensures
        r@ == label@ + text@,
{
    let mut out = chars_of(label);
    push_str(&mut out, text);
    string_of(out.as_slice())
}

fn push_row(rows: &mut Vec<Vec<String>>, row: Vec<String>)
    ensures
        rows_view(final(rows)@) == rows_view(old(rows)@).push(string_views(row@)),
{
    let ghost before = rows@;
    rows.push(row);
    assert(rows_view(rows@) =~= rows_view(before).push(string_views(row@)));
}

/// The latest booking date of a statement's transactions.
pub fn last_booking(stmt: &Statement) -> (r: Option<Date>)
    ensures
        r is Some == (stmt.transactions@.len() > 0),
        r matches Some(d) ==> d@ == latest_booking(
            transaction_views(stmt.transactions@),
            stmt.transactions@.len() as int,
            stmt.period_from@,
        ),
{
    if stmt.transactions.len() == 0 {
        return None;
    }
    let ghost txs = transaction_views(stmt.transactions@);
    let mut latest = stmt.transactions[0].booking_date;
    let mut i: usize = 1;
    assert(txs[0] == stmt.transactions@[0]@);
    while i < stmt.transactions.len()
        invariant
            1 <= i <= stmt.transactions.len(),
            txs == transaction_views(stmt.transactions@),
            latest@ == latest_booking(txs, i as int, stmt.period_from@),
        decreases stmt.transactions.len() - i,
    {
        assert(txs[i as int] == stmt.transactions@[i as int]@);
        latest = latest.max(stmt.transactions[i].booking_date);
        i += 1;
    }
    Some(latest)
}

/// Writes the header block of an export that is made at the time `now`.
pub fn write_header(rows: &mut Vec<Vec<String>>, stmt: &Statement, now: Timestamp)
    ensures
        rows_view(final(rows)@) == rows_view(old(rows)@) + header_rows(
            stmt@,
            now.day(),
            now.clock(),
        ),
{
    let ghost start = rows_view(rows@);
    let ghost expected = header_rows(stmt@, now.day(), now.clock());
    let today = now.format_dotted();

    let mut row0 = empty_row();
    put(&mut row0, 1, today.clone());
    push_row(rows, row0);

    let mut row1 = empty_row();
    put(&mut row1, 5, "СберБизнес. экспорт выписки".to_string());
    push_row(rows, row1);

    let mut row2 = empty_row();
    put(&mut row2, 1, "ПАО СБЕРБАНК".to_string());
    push_row(rows, row2);

    let mut row3 = empty_row();
    let mut made = chars_of("Дата формирования выписки ");
    push_str(&mut made, today.as_str());
    push_str(&mut made, " в ");
    push_str(&mut made, now.format_clock().as_str());
    put(&mut row3, 1, string_of(made.as_slice()));
    push_row(rows, row3);

    let mut row4 = empty_row();
    put(&mut row4, 1, "ВЫПИСКА ОПЕРАЦИЙ ПО ЛИЦЕВОМУ СЧЕТУ".to_string());
    put(&mut row4, 12, stmt.account_id.clone());
    push_row(rows, row4);

    let mut row5 = empty_row();
    put(
        &mut row5,
        12,
        match &stmt.account_name {
            Some(n) => n.clone(),
            None => String::new(),
        },
    );
    push_row(rows, row5);

    let mut row6 = empty_row();
    put(&mut row6, 2, labelled("за период с ", format_rus_date(stmt.period_from).as_str()));
    put(&mut row6, 14, "по".to_string());
    put(&mut row6, 15, labelled("по ", format_rus_date(stmt.period_until).as_str()));
    push_row(rows, row6);

    let mut row7 = empty_row();
    put(&mut row7, 2, currency_label(&stmt.currency));
    if let Some(last) = last_booking(stmt) {
        put(
            &mut row7,
            12,
            labelled("Дата предыдущей операции по счету ", format_rus_date(last).as_str()),
        );
    }
    assert(string_views(row7@) =~= expected[7]);
    push_row(rows, row7);

    push_row(rows, empty_row());
    assert(rows_view(rows@) =~= start + expected);
}

/// How many of the first `n` transactions go in the given direction.
pub open spec fn count_of(txs: Seq<TransactionView>, n: int, direction: Direction) -> nat
    decreases n,
{
    if n <= 0 {
        0
    } else if txs[n - 1].direction == direction {
        count_of(txs, n - 1, direction) + 1
    } else {
        count_of(txs, n - 1, direction)
    }
}

/// The sum of the amounts of those of the first `n` transactions that go in
/// the given direction.
pub open spec fn turnover_of(txs: Seq<TransactionView>, n: int, direction: Direction) -> nat
    decreases n,
{
    if n <= 0 {
        0
    } else if txs[n - 1].direction == direction {
        turnover_of(txs, n - 1, direction) + txs[n - 1].amount as nat
    } else {
        turnover_of(txs, n - 1, direction)
    }
}

/// The footer row of a balance: its label; the magnitude in the debit cell
/// if the balance is negative and in the credit cell otherwise, with a zero
/// in the other cell; and the day of the balance.
pub open spec fn balance_row(label: Seq<char>, balance: Balance, date: (int, int, int)) -> Seq<
    Seq<char>,
> {
    let debit: int = if balance >= 0 {
        0
    } else {
        -balance
    };
    let credit: int = if balance >= 0 {
        balance as int
    } else {
        0
    };
    blank_row().update(1, label).update(7, minor_units_text(debit, ',')).update(
        11,
        minor_units_text(credit, '.'),
    ).update(17, "(П)"@).update(19, rus_date_text(date))
}

/// The rows of the footer block: the account row, the numbers of debit and
/// credit transactions and of all, the opening balance where there is one,
/// the turnovers, and the closing balance where there is one.
pub open spec fn footer_rows(s: StatementView) -> Seq<Seq<Seq<char>>> {
    let n = s.transactions.len() as int;
    let debits = count_of(s.transactions, n, Direction::Debit);
    let credits = count_of(s.transactions, n, Direction::Credit);
    seq![
        blank_row().update(1, "б/с"@).update(3, s.account_id).update(7, "Дебет"@).update(
            11,
            "Кредит"@,
        ).update(20, "Всего"@),
        blank_row().update(1, "Количество операций"@).update(6, decimal(debits)).update(
            10,
            decimal(credits),
        ).update(20, decimal(debits + credits)),
    ] + (match s.opening_balance {
        Some(b) => seq![balance_row("Входящий остаток"@, b, s.period_from)],
        None => Seq::empty(),
    }) + seq![
        blank_row().update(1, "Итого оборотов"@).update(
            7,
            minor_units_text(turnover_of(s.transactions, n, Direction::Debit) as int, '.'),
        ).update(
            11,
            minor_units_text(turnover_of(s.transactions, n, Direction::Credit) as int, '.'),
        ),
    ] + (match s.closing_balance {
        Some(b) => seq![balance_row("Исходящий остаток"@, b, s.period_until)],
        None => Seq::empty(),
    })
}

fn number_text(n: u128) -> (r: String)
    ensures
        r@ == decimal(n as nat),
{
    let mut out: Vec<char> = Vec::new();
    push_decimal(&mut out, n);
    assert(out@ =~= decimal(n as nat));
    string_of(out.as_slice())
}

fn make_balance_row(label: &str, balance: Balance, date: Date) -> (r: Vec<String>)
    ensures
        string_views(r@) == balance_row(label@, balance, date@),
{
    let mut row = empty_row();
    put(&mut row, 1, label.to_string());
    if balance >= 0 {
        put(&mut row, 7, format_units(0, ','));
        put(&mut row, 11, format_units(balance, '.'));
    } else {
        let magnitude: u128 = ((-(balance + 1)) as u128) + 1;
        put(&mut row, 7, format_magnitude(magnitude, ','));
        put(&mut row, 11, format_units(0, '.'));
    }
    put(&mut row, 17, "(П)".to_string());
    put(&mut row, 19, format_rus_date(date));
    row
}

/// Writes the footer block of an export.
pub fn write_footer(rows: &mut Vec<Vec<String>>, stmt: &Statement)
    ensures
        rows_view(final(rows)@) == rows_view(old(rows)@) + footer_rows(stmt@),
{
    let ghost start = rows_view(rows@);
    let ghost s = stmt@;
    let ghost txs = s.transactions;
    let mut bs_row = empty_row();
    put(&mut bs_row, 1, "б/с".to_string());
    put(&mut bs_row, 3, stmt.account_id.clone());
    put(&mut bs_row, 7, "Дебет".to_string());
    put(&mut bs_row, 11, "Кредит".to_string());
    put(&mut bs_row, 20, "Всего".to_string());
    push_row(rows, bs_row);

    let mut debit_ops: usize = 0;
    let mut credit_ops: usize = 0;
    let mut debit_turnover: u128 = 0;
    let mut credit_turnover: u128 = 0;
    let mut i: usize = 0;
    while i < stmt.transactions.len()
        invariant
            i <= stmt.transactions.len(),
            txs == transaction_views(stmt.transactions@),
            debit_ops == count_of(txs, i as int, Direction::Debit),
            credit_ops == count_of(txs, i as int, Direction::Credit),
            debit_ops + credit_ops == i,
            debit_turnover == turnover_of(txs, i as int, Direction::Debit),
            credit_turnover == turnover_of(txs, i as int, Direction::Credit),
            debit_turnover <= i * 0xffff_ffff_ffff_ffff,
            credit_turnover <= i * 0xffff_ffff_ffff_ffff,
        decreases stmt.transactions.len() - i,
    {
        assert(txs[i as int] == stmt.transactions@[i as int]@);
        assert((i + 1) * 0xffff_ffff_ffff_ffff <= 0xffff_ffff_ffff_ffff * 0xffff_ffff_ffff_ffff
            && i * 0xffff_ffff_ffff_ffff + 0xffff_ffff_ffff_ffff == (i + 1)
            * 0xffff_ffff_ffff_ffff) by (nonlinear_arith)
            requires
                i + 1 <= 0xffff_ffff_ffff_ffff,
        ;
        let tx = &stmt.transactions[i];
        match tx.direction {
            Direction::Debit => {
                debit_ops += 1;
                debit_turnover += tx.amount as u128;
            },
            Direction::Credit => {
                credit_ops += 1;
                credit_turnover += tx.amount as u128;
            },
        }
        i += 1;
    }
    let total_ops = debit_ops + credit_ops;

    let mut count_row = empty_row();
    put(&mut count_row, 1, "Количество операций".to_string());
    put(&mut count_row, 6, number_text(debit_ops as u128));
    put(&mut count_row, 10, number_text(credit_ops as u128));
    put(&mut count_row, 20, number_text(total_ops as u128));
    push_row(rows, count_row);

    if let Some(opening) = stmt.opening_balance {
        push_row(rows, make_balance_row("Входящий остаток", opening, stmt.period_from));
    }
    let mut total_row = empty_row();
    put(&mut total_row, 1, "Итого оборотов".to_string());
    put(&mut total_row, 7, format_magnitude(debit_turnover, '.'));
    put(&mut total_row, 11, format_magnitude(credit_turnover, '.'));
    push_row(rows, total_row);

    if let Some(closing) = stmt.closing_balance {
        push_row(rows, make_balance_row("Исходящий остаток", closing, stmt.period_until));
    }
    assert(rows_view(rows@) =~= start + footer_rows(s));
}

/// The first header row of the table.
pub open spec fn table_head() -> Seq<Seq<char>> {
    blank_row().update(1, "Дата проводки"@).update(4, "Счет"@).update(9, "Сумма по дебету"@).update(
        13,
        "Сумма по кредиту"@,
    ).update(14, "№ документа"@).update(16, "ВО"@).update(17, "Банк (БИК и наименование)"@).update(
        20,
        "Назначение платежа"@,
    )
}

/// The second header row of the table.
pub open spec fn table_subhead() -> Seq<Seq<char>> {
    blank_row().update(4, "Дебет"@).update(8, "Кредит"@)
}

/// The row of a transaction: booking date; the two party blocks, ours on
/// the side of the direction; the amount in the debit or the credit column;
/// and the description.
pub open spec fn transaction_row(tx: TransactionView, account: Seq<char>, name: Seq<char>) -> Seq<
    Seq<char>,
> {
    let ours = party_block(account, name);
    let theirs = party_block(
        match tx.counterparty {
            Some(c) => c,
            None => Seq::empty(),
        },
        match tx.counterparty_name {
            Some(n) => n,
            None => Seq::empty(),
        },
    );
    let amount = minor_units_text(tx.amount as int, '.');
    match tx.direction {
        Direction::Debit => blank_row().update(1, dotted_text(tx.booking_date)).update(
            4,
            ours,
        ).update(8, theirs).update(9, amount).update(20, tx.description),
        Direction::Credit => blank_row().update(1, dotted_text(tx.booking_date)).update(
            4,
            theirs,
        ).update(8, ours).update(13, amount).update(20, tx.description),
    }
}

/// The rows of the first `n` transactions.
pub open spec fn transaction_rows(
    txs: Seq<TransactionView>,
    account: Seq<char>,
    name: Seq<char>,
    n: int,
) -> Seq<Seq<Seq<char>>>
    decreases n,
{
    if n <= 0 {
        Seq::empty()
    } else {
        transaction_rows(txs, account, name, n - 1).push(
            transaction_row(txs[n - 1], account, name),
        )
    }
}

/// All rows of the export of a statement that is made on the given day at
/// the given time: header block, table header, one row for each
/// transaction, footer block.
pub open spec fn csv_document(s: StatementView, day: (int, int, int), clock: (int, int, int))
    -> Seq<Seq<Seq<char>>> {
    header_rows(s, day, clock) + seq![table_head(), table_subhead()] + transaction_rows(
        s.transactions,
        s.account_id,
        match s.account_name {
            Some(n) => n,
            None => Seq::empty(),
        },
        s.transactions.len() as int,
    ) + footer_rows(s)
}

fn opt_str(o: &Option<String>) -> (r: &str)
    ensures
        r@ == text_or_empty(*o),
{
    proof {
        reveal_strlit("");
        assert(""@ =~= Seq::<char>::empty());
    }
    match o {
        Some(s) => s.as_str(),
        None => "",
    }
}

fn make_transaction_row(tx: &Transaction, account: &str, name: &str) -> (r: Vec<String>)
    ensures
        string_views(r@) == transaction_row(tx@, account@, name@),
{
    proof {
        reveal_strlit("");
    }
    let mut row = empty_row();
    put(&mut row, 1, tx.booking_date.format_dotted());
    let ours = make_party_block(account, name);
    let theirs = make_party_block(opt_str(&tx.counterparty), opt_str(&tx.counterparty_name));
    assert(text_or_empty(tx.counterparty) =~= match tx@.counterparty {
        Some(c) => c,
        None => Seq::empty(),
    });
    assert(text_or_empty(tx.counterparty_name) =~= match tx@.counterparty_name {
        Some(c) => c,
        None => Seq::empty(),
    });
    match tx.direction {
        Direction::Debit => {
            put(&mut row, 4, ours);
            put(&mut row, 8, theirs);
            put(&mut row, 9, format_amount(tx.amount, '.'));
        },
        Direction::Credit => {
            put(&mut row, 4, theirs);
            put(&mut row, 8, ours);
            put(&mut row, 13, format_amount(tx.amount, '.'));
        },
    }
    put(&mut row, 20, tx.description.clone());
    row
}

/// Makes all rows of the export of a statement at the time `now`.
pub fn document_rows(stmt: &Statement, now: Timestamp) -> (r: Vec<Vec<String>>)
    ensures
        rows_view(r@) == csv_document(stmt@, now.day(), now.clock()),
{
    proof {
        reveal_strlit("");
    }
    let mut rows: Vec<Vec<String>> = Vec::new();
    assert(rows_view(rows@) =~= Seq::<Seq<Seq<char>>>::empty());
    write_header(&mut rows, stmt, now);

    let mut head = empty_row();
    put(&mut head, 1, "Дата проводки".to_string());
    put(&mut head, 4, "Счет".to_string());
    put(&mut head, 9, "Сумма по дебету".to_string());
    put(&mut head, 13, "Сумма по кредиту".to_string());
    put(&mut head, 14, "№ документа".to_string());
    put(&mut head, 16, "ВО".to_string());
    put(&mut head, 17, "Банк (БИК и наименование)".to_string());
    put(&mut head, 20, "Назначение платежа".to_string());
    push_row(&mut rows, head);

    let mut subhead = empty_row();
    put(&mut subhead, 4, "Дебет".to_string());
    put(&mut subhead, 8, "Кредит".to_string());
    push_row(&mut rows, subhead);

    let name = opt_str(&stmt.account_name);
    let ghost top = rows_view(rows@);
    let ghost s = stmt@;
    let ghost account_name = text_or_empty(stmt.account_name);
    assert(account_name =~= match s.account_name {
        Some(n) => n,
        None => Seq::empty(),
    });
    assert(top =~= header_rows(s, now.day(), now.clock()) + seq![table_head(), table_subhead()]);
    let mut i: usize = 0;
    while i < stmt.transactions.len()
        invariant
            i <= stmt.transactions.len(),
            s == stmt@,
            name@ == account_name,
            rows_view(rows@) == top + transaction_rows(
                s.transactions,
                s.account_id,
                account_name,
                i as int,
            ),
        decreases stmt.transactions.len() - i,
    {
        assert(s.transactions[i as int] == stmt.transactions@[i as int]@);
        let row = make_transaction_row(&stmt.transactions[i], stmt.account_id.as_str(), name);
        push_row(&mut rows, row);
        assert(rows_view(rows@) =~= top + transaction_rows(
            s.transactions,
            s.account_id,
            account_name,
            i + 1,
        ));
        i += 1;
    }
    write_footer(&mut rows, stmt);
    rows
}

/// The line that the csv crate writes for one record, or nothing where it
/// refuses the record.
pub uninterp spec fn csv_line(fields: Seq<Seq<char>>) -> Option<Seq<char>>;

/// `WriterBuilder::has_headers(false)`, `from_writer`, `write_record` and
/// `flush` on an empty buffer: the bytes that the writer puts out for one
/// record, which are the same for the same fields, or the writer's error.
#[verifier::external_body]
fn write_record(fields: &Vec<String>) -> (r: Result<String, csv::Error>)
    ensures
        match r {
            Ok(line) => csv_line(string_views(fields@)) == Some(line@),
            Err(_) => csv_line(string_views(fields@)) is None,
        },
{
    let mut writer = csv::WriterBuilder::new().has_headers(false).from_writer(Vec::new());
    writer.write_record(fields)?;
    writer.flush()?;
    Ok(String::from_utf8_lossy(writer.get_ref()).into_owned())
}

/// The lines of the first `n` rows, one after the other, or nothing where
/// the csv crate refuses one of them.
pub open spec fn csv_text(rows: Seq<Seq<Seq<char>>>, n: int) -> Option<Seq<char>>
    decreases n,
{
    if n <= 0 {
        Some(Seq::empty())
    } else {
        match (csv_text(rows, n - 1), csv_line(rows[n - 1])) {
            (Some(head), Some(line)) => Some(head + line),
            _ => None,
        }
    }
}

/// Once a prefix of the rows is refused, every longer prefix is refused.
pub proof fn lemma_csv_text_none(rows: Seq<Seq<Seq<char>>>, n: int, m: int)
    requires
        0 <= n <= m,
        csv_text(rows, n) is None,
    ensures
        csv_text(rows, m) is None,
    decreases m - n,
{
    if n < m {
        lemma_csv_text_none(rows, n, m - 1);
    }
}

/// Writes rows as CSV text, record by record.
pub fn encode_rows(rows: &[Vec<String>]) -> (r: Result<String, ParseError>)
    ensures
        match r {
            Ok(text) => csv_text(rows_view(rows@), rows@.len() as int) == Some(text@),
            Err(e) => e is Csv && csv_text(rows_view(rows@), rows@.len() as int) is None,
        },
{
    let ghost all = rows_view(rows@);
    let mut out: Vec<char> = Vec::new();
    let mut i: usize = 0;
    while i < rows.len()
        invariant
            i <= rows.len(),
            all == rows_view(rows@),
            csv_text(all, i as int) == Some(out@),
        decreases rows.len() - i,
    {
        assert(all[i as int] == string_views(rows@[i as int]@));
        match write_record(&rows[i]) {
            Ok(line) => {
                push_str(&mut out, line.as_str());
            },
            Err(e) => {
                proof {
                    assert(csv_text(all, i + 1) is None);
                    lemma_csv_text_none(all, i + 1, rows.len() as int);
                }
                return Err(ParseError::Csv(e));
            },
        }
        i += 1;
    }
    Ok(string_of(out.as_slice()))
}

} // verus!
