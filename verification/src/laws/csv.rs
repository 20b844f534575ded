//! What is written into the cells of a CSV export is read back from them.
//! Booking dates go through chrono: of those the laws say what is handed to
//! chrono, and no more. The names of months and currencies are read back as
//! the library writes them, whatever the lower-casing of other forms gives.

use crate::csv_parser::utils::{
    account_and_name_of, amount_and_direction_of, cell, column_of, counterparty_account_of,
    date_words, filled_lines, first_exact, first_holding, first_marker, footer_balance_of,
    is_footer, is_footer_marker, is_zero_cell, month_of_word, no_name, rus_date_of,
};
use crate::text::{
    contains, is_blank, is_whitespace, is_word, lemma_blank_trim, lemma_find_none, lemma_lines_open,
    lemma_run_end, lemma_run_start_props, lemma_tokens_behind_word, lemma_trim_identity, lines,
    occurs_at, run_start, starts_with, strip_end, trim, unlines, CharClass,
};
use crate::csv_parser::{
    csv_statement_of, csv_transaction_of, csv_transactions_of, data_of, first_filled,
    first_footer_row, first_row_holding, footer_of, footer_scan, header_of, layout_of,
    optional_cell, record_of, records_of, strip_prefix_all, CsvDataView, CsvFooter, CsvRecordView,
    TableLayout,
};
use crate::date::{chrono_date, clock_text, dotted_text, valid_ymd, year_text};
use crate::number::{decimal, is_digit, lemma_decimal_digits, pad2, signed_decimal};
use crate::serialization::csv_helpers::{
    balance_row, csv_document, currency_label_text, footer_rows, header_rows, month_name,
    party_block, rus_date_text, table_head, table_subhead, transaction_row, transaction_rows,
};
use crate::error::ErrorKind;
use crate::laws::{law_amount_round_trip, lemma_amount_text_shape, lemma_comma_to_dot};
use crate::model::{
    latest_booking, Balance, CurrencyView, Direction, StatementView, TransactionView,
};
use crate::serialization::common::minor_units_text;
use vstd::prelude::*;

verus! {

/// A written amount is trimmed, and is a zero cell only for the amount
/// zero.
pub proof fn lemma_written_cell(magnitude: nat, separator: char)
    requires
        separator == '.' || separator == ',',
        magnitude <= u64::MAX,
    ensures
        trim(minor_units_text(magnitude as int, separator)) == minor_units_text(
            magnitude as int,
            separator,
        ),
        !is_blank(minor_units_text(magnitude as int, separator)),
        is_zero_cell(minor_units_text(magnitude as int, separator)) == (magnitude == 0),
{
    let text = minor_units_text(magnitude as int, separator);
    lemma_amount_text_shape(magnitude, separator);
    lemma_trim_identity(text);
    lemma_blank_trim(text);
    reveal_strlit("0");
    reveal_strlit("0,00");
    reveal_strlit("0.00");
    law_amount_round_trip(magnitude as u64, separator);
    law_amount_round_trip(0, ',');
    law_amount_round_trip(0, '.');
    if magnitude == 0 {
        crate::number::lemma_decimal_digits(0);
        assert(text =~= if separator == '.' {
            "0.00"@
        } else {
            "0,00"@
        }) by {
            reveal_with_fuel(crate::number::decimal, 2);
        }
    } else {
        if text == "0,00"@ {
            assert(separator == ',') by {
                assert(text[1] == ',');
                if separator == '.' {
                    lemma_comma_to_dot(magnitude);
                    assert(text.contains(','));
                }
            }
            assert(minor_units_text(0, ',') =~= "0,00"@) by {
                reveal_with_fuel(crate::number::decimal, 2);
            }
        }
        if text == "0.00"@ {
            assert(separator == '.') by {
                assert(text[1] == '.');
                if separator == ',' {
                    lemma_comma_to_dot(magnitude);
                    assert(text.contains('.'));
                }
            }
            assert(minor_units_text(0, '.') =~= "0.00"@) by {
                reveal_with_fuel(crate::number::decimal, 2);
            }
        }
    }
}

/// A balance that was written into a footer row is read back, if its
/// magnitude fits 64 bits.
pub proof fn law_csv_balance_round_trip(label: Seq<char>, balance: Balance, date: (int, int, int))
    requires
        -(u64::MAX as int) <= balance <= u64::MAX as int,
    ensures
        footer_balance_of(balance_row(label, balance, date)) == Ok::<Balance, ErrorKind>(balance),
{
    let row = balance_row(label, balance, date);
    let magnitude: nat = if balance < 0 {
        (-balance) as nat
    } else {
        balance as nat
    };
    let debit = cell(row, 7);
    let credit = cell(row, 11);
    lemma_written_cell(0, ',');
    lemma_written_cell(0, '.');
    lemma_written_cell(magnitude, ',');
    lemma_written_cell(magnitude, '.');
    lemma_comma_to_dot(magnitude);
    law_amount_round_trip(magnitude as u64, '.');
    if balance >= 0 {
        assert(debit == minor_units_text(0, ','));
        assert(credit == minor_units_text(magnitude as int, '.'));
        assert(crate::text::replaced(credit, ',', '.') =~= credit);
    } else {
        assert(debit == minor_units_text(magnitude as int, ','));
        assert(credit == minor_units_text(0, '.'));
    }
}

/// The amount and the direction of a transaction are read back from the
/// row that was written for it: the amount stands in the debit column of a
/// debit and in the credit column of a credit, and the other column is
/// empty.
pub proof fn law_csv_row_round_trip(tx: TransactionView, account: Seq<char>, name: Seq<char>)
    ensures
        amount_and_direction_of(
            optional_cell(transaction_row(tx, account, name), 9),
            optional_cell(transaction_row(tx, account, name), 13),
        ) == Ok::<(u64, Direction), ErrorKind>((tx.amount, tx.direction)),
        trim(cell(transaction_row(tx, account, name), 20)) == trim(tx.description),
{
    let row = transaction_row(tx, account, name);
    let amount = minor_units_text(tx.amount as int, '.');
    lemma_written_cell(tx.amount as nat, '.');
    law_amount_round_trip(tx.amount, '.');
    let empty = Seq::<char>::empty();
    lemma_trim_identity(empty);
    lemma_run_end(empty, CharClass::Whitespace, 0, 0);
    match tx.direction {
        Direction::Debit => {
            assert(row[9] == amount);
            assert(row[13] == empty);
        },
        Direction::Credit => {
            assert(row[13] == amount);
            assert(row[9] == empty);
        },
    }
}

/// A text that does not hold the first character of a label does not hold
/// the label.
pub proof fn lemma_lacks(text: Seq<char>, label: Seq<char>)
    requires
        label.len() > 0,
        forall|j: int| 0 <= j < text.len() ==> text[j] != label[0],
    ensures
        !contains(text, label),
{
    assert forall|j: int| 0 <= j implies !occurs_at(text, label, j) by {
        if occurs_at(text, label, j) {
            assert(text.subrange(j, j + label.len())[0] == label[0]);
        }
    }
    lemma_find_none(text, label, 0);
}

/// A text that holds the first character of a label at its beginning only,
/// and differs from the label at some other place, does not hold the label.
pub proof fn lemma_lacks_but_first(text: Seq<char>, label: Seq<char>, k: int)
    requires
        0 < k < label.len(),
        k < text.len() ==> text[k] != label[k],
        forall|j: int| 1 <= j < text.len() ==> text[j] != label[0],
    ensures
        !contains(text, label),
{
    assert forall|j: int| 0 <= j implies !occurs_at(text, label, j) by {
        if occurs_at(text, label, j) {
            let part = text.subrange(j, j + label.len());
            assert(part[0] == label[0]);
            assert(part[k] == label[k]);
        }
    }
    lemma_find_none(text, label, 0);
}

/// The fixed texts of the header block do not hold the label of the
/// booking date.
pub proof fn lemma_header_texts()
    ensures
        !contains("СберБизнес. экспорт выписки"@, "Дата проводки"@),
        !contains("ПАО СБЕРБАНК"@, "Дата проводки"@),
        !contains("ВЫПИСКА ОПЕРАЦИЙ ПО ЛИЦЕВОМУ СЧЕТУ"@, "Дата проводки"@),
        !contains("по"@, "Дата проводки"@),
        !contains(Seq::<char>::empty(), "Дата проводки"@),
{
    reveal_strlit("Дата проводки");
    reveal_strlit("СберБизнес. экспорт выписки");
    reveal_strlit("ПАО СБЕРБАНК");
    reveal_strlit("ВЫПИСКА ОПЕРАЦИЙ ПО ЛИЦЕВОМУ СЧЕТУ");
    reveal_strlit("по");
    lemma_lacks("СберБизнес. экспорт выписки"@, "Дата проводки"@);
    lemma_lacks("ПАО СБЕРБАНК"@, "Дата проводки"@);
    lemma_lacks("ВЫПИСКА ОПЕРАЦИЙ ПО ЛИЦЕВОМУ СЧЕТУ"@, "Дата проводки"@);
    lemma_lacks("по"@, "Дата проводки"@);
    lemma_lacks(Seq::<char>::empty(), "Дата проводки"@);
}

/// The label by which the first header row of the table is found.
pub open spec fn table_label() -> Seq<char> {
    "Дата проводки"@
}

/// A row of which no cell holds a label.
pub proof fn lemma_row_lacks(row: Seq<Seq<char>>, label: Seq<char>, from: int)
    requires
        0 <= from,
        forall|k: int| 0 <= k < row.len() ==> !contains(#[trigger] row[k], label),
    ensures
        first_holding(row, label, from) >= row.len(),
    decreases row.len() - from,
{
    if from < row.len() {
        assert(!contains(row[from], label));
        lemma_row_lacks(row, label, from + 1);
    }
}

/// The first row that holds a label, where no row before it does.
pub proof fn lemma_first_row(rows: Seq<Seq<Seq<char>>>, label: Seq<char>, from: int, at: int)
    requires
        0 <= from <= at < rows.len(),
        forall|i: int|
            from <= i < at ==> first_holding(#[trigger] rows[i], label, 0) >= rows[i].len(),
        first_holding(rows[at], label, 0) < rows[at].len(),
    ensures
        first_row_holding(rows, label, from) == at,
    decreases at - from,
{
    if from < at {
        assert(first_holding(rows[from], label, 0) >= rows[from].len());
        lemma_first_row(rows, label, from + 1, at);
    }
}

/// A row of which no cell marks the footer does not belong to the footer.
pub proof fn lemma_row_unmarked(row: Seq<Seq<char>>, from: int)
    requires
        0 <= from,
        forall|k: int| 0 <= k < row.len() ==> !is_footer_marker(#[trigger] row[k]),
    ensures
        first_marker(row, from) >= row.len(),
    decreases row.len() - from,
{
    if from < row.len() {
        assert(!is_footer_marker(row[from]));
        lemma_row_unmarked(row, from + 1);
    }
}

/// The first row of the footer, where no row before it belongs to it.
pub proof fn lemma_first_footer(rows: Seq<Seq<Seq<char>>>, from: int, at: int)
    requires
        0 <= from <= at < rows.len(),
        forall|i: int| from <= i < at ==> !is_footer(#[trigger] rows[i]),
        is_footer(rows[at]),
    ensures
        first_footer_row(rows, from) == at,
    decreases at - from,
{
    if from < at {
        assert(!is_footer(rows[from]));
        lemma_first_footer(rows, from + 1, at);
    }
}

/// Whether a character can stand in a written date or amount: a digit, a
/// sign, a dot, a comma, a colon or a space.
pub open spec fn is_figure(c: char) -> bool {
    is_digit(c) || c == '.' || c == ',' || c == '-' || c == '+' || c == ':' || c == ' '
}

/// Whether a text is made of figures only.
pub open spec fn all_figures(s: Seq<char>) -> bool {
    forall|j: int| 0 <= j < s.len() ==> is_figure(#[trigger] s[j])
}

/// Texts of figures give a text of figures when they are put together.
pub proof fn lemma_figures_add(a: Seq<char>, b: Seq<char>)
    requires
        all_figures(a),
        all_figures(b),
    ensures
        all_figures(a + b),
{
    assert forall|j: int| 0 <= j < (a + b).len() implies is_figure(#[trigger] (a + b)[j]) by {
        if j < a.len() {
            assert((a + b)[j] == a[j]);
        } else {
            assert((a + b)[j] == b[j - a.len()]);
        }
    }
}

/// Numbers are written with figures.
pub proof fn lemma_number_figures(n: nat)
    ensures
        all_figures(decimal(n)),
        all_figures(pad2(n)),
        pad2(n).len() >= 2,
        is_digit(pad2(n)[0]),
        is_digit(pad2(n).last()),
        is_digit(decimal(n)[0]),
        is_digit(decimal(n).last()),
        decimal(n).len() >= 1,
{
    lemma_decimal_digits(n);
    crate::number::lemma_digit_char(if n < 10 {
        n as int
    } else {
        0
    });
    if n >= 10 {
        lemma_decimal_digits(n / 10);
    }
    assert(is_digit(decimal(n)[0]));
    assert(is_digit(decimal(n)[decimal(n).len() - 1]));
}

/// A year is written with figures, and ends in a digit.
pub proof fn lemma_year_figures(year: int)
    ensures
        all_figures(year_text(year)),
        all_figures(signed_decimal(year)),
        year_text(year).len() >= 4,
        is_digit(year_text(year).last()),
        is_digit(signed_decimal(year).last()),
        signed_decimal(year).len() >= 1,
{
    let magnitude: nat = if year < 0 {
        (-year) as nat
    } else {
        year as nat
    };
    let digits = decimal(magnitude);
    lemma_number_figures(magnitude);
    let zeros = Seq::new((4 - digits.len()) as nat, |i: int| '0');
    let padded = if digits.len() < 4 {
        zeros + digits
    } else {
        digits
    };
    if digits.len() < 4 {
        assert(all_figures(zeros));
        lemma_figures_add(zeros, digits);
        assert(padded.last() == digits.last());
    }
    lemma_figures_add(seq!['-'], padded);
    lemma_figures_add(seq!['+'], padded);
    lemma_figures_add(seq!['-'], digits);
    assert((seq!['-'] + padded).last() == padded.last());
    assert((seq!['+'] + padded).last() == padded.last());
    assert((seq!['-'] + digits).last() == digits.last());
}

/// A date with dots is written with figures; it begins and ends with a
/// digit.
pub proof fn lemma_dotted_figures(d: (int, int, int))
    requires
        valid_ymd(d.0, d.1, d.2),
    ensures
        all_figures(dotted_text(d)),
        dotted_text(d).len() >= 10,
        is_digit(dotted_text(d)[0]),
        is_digit(dotted_text(d).last()),
{
    let day = pad2(d.2 as nat);
    let month = pad2(d.1 as nat);
    let year = year_text(d.0);
    lemma_number_figures(d.2 as nat);
    lemma_number_figures(d.1 as nat);
    lemma_year_figures(d.0);
    let dot = seq!['.'];
    lemma_figures_add(day, dot);
    lemma_figures_add(day + dot, month);
    lemma_figures_add(day + dot + month, dot);
    lemma_figures_add(day + dot + month + dot, year);
    let text = dotted_text(d);
    assert(text == day + dot + month + dot + year);
    assert(text[0] == day[0]);
    assert(text.last() == year.last());
}

/// A time of day is written with figures, and ends in a digit.
pub proof fn lemma_clock_figures(t: (int, int, int))
    requires
        0 <= t.0 && 0 <= t.1 && 0 <= t.2,
    ensures
        all_figures(clock_text(t)),
        clock_text(t).len() > 0,
        is_digit(clock_text(t).last()),
{
    let h = pad2(t.0 as nat);
    let m = pad2(t.1 as nat);
    let sec = pad2(t.2 as nat);
    lemma_number_figures(t.0 as nat);
    lemma_number_figures(t.1 as nat);
    lemma_number_figures(t.2 as nat);
    let colon = seq![':'];
    lemma_figures_add(h, colon);
    lemma_figures_add(h + colon, m);
    lemma_figures_add(h + colon + m, colon);
    lemma_figures_add(h + colon + m + colon, sec);
    assert(clock_text(t).last() == sec.last());
}

/// Whether a character is a small Cyrillic letter.
pub open spec fn is_small_letter(c: char) -> bool {
    'а' <= c <= 'я'
}

/// Whether a text is made of figures and small Cyrillic letters only.
pub open spec fn all_plain(s: Seq<char>) -> bool {
    forall|j: int| 0 <= j < s.len() ==> is_figure(#[trigger] s[j]) || is_small_letter(s[j])
}

/// Plain texts give a plain text when they are put together.
pub proof fn lemma_plain_add(a: Seq<char>, b: Seq<char>)
    requires
        all_plain(a),
        all_plain(b),
    ensures
        all_plain(a + b),
{
    assert forall|j: int| 0 <= j < (a + b).len() implies is_figure(#[trigger] (a + b)[j])
        || is_small_letter((a + b)[j]) by {
        if j < a.len() {
            assert((a + b)[j] == a[j]);
        } else {
            assert((a + b)[j] == b[j - a.len()]);
        }
    }
}

/// The names of the months are written with small letters.
pub proof fn lemma_month_plain(month: int)
    ensures
        all_plain(month_name(month)),
{
    reveal_strlit("января");
    reveal_strlit("февраля");
    reveal_strlit("марта");
    reveal_strlit("апреля");
    reveal_strlit("мая");
    reveal_strlit("июня");
    reveal_strlit("июля");
    reveal_strlit("августа");
    reveal_strlit("сентября");
    reveal_strlit("октября");
    reveal_strlit("ноября");
    reveal_strlit("декабря");
}

/// A written-out date is plain, and ends in a dot.
pub proof fn lemma_rus_date_plain(d: (int, int, int))
    requires
        valid_ymd(d.0, d.1, d.2),
    ensures
        all_plain(rus_date_text(d)),
        rus_date_text(d).len() > 0,
        rus_date_text(d).last() == '.',
{
    reveal_strlit(" ");
    reveal_strlit(" г.");
    let day = pad2(d.2 as nat);
    let year = signed_decimal(d.0);
    lemma_number_figures(d.2 as nat);
    lemma_year_figures(d.0);
    lemma_month_plain(d.1);
    assert(all_plain(day));
    assert(all_plain(year));
    assert(all_plain(" "@));
    assert(all_plain(" г."@));
    lemma_plain_add(day, " "@);
    lemma_plain_add(day + " "@, month_name(d.1));
    lemma_plain_add(day + " "@ + month_name(d.1), " "@);
    lemma_plain_add(day + " "@ + month_name(d.1) + " "@, year);
    lemma_plain_add(day + " "@ + month_name(d.1) + " "@ + year, " г."@);
    assert(rus_date_text(d).last() == " г."@[2]);
}

/// The name of a month is one word, and names that month.
pub proof fn lemma_month_word(month: int)
    requires
        1 <= month <= 12,
    ensures
        is_word(month_name(month)),
        month_of_word(month_name(month)) == Some(month),
{
    reveal_strlit("января");
    reveal_strlit("февраля");
    reveal_strlit("марта");
    reveal_strlit("апреля");
    reveal_strlit("мая");
    reveal_strlit("июня");
    reveal_strlit("июля");
    reveal_strlit("августа");
    reveal_strlit("сентября");
    reveal_strlit("октября");
    reveal_strlit("ноября");
    reveal_strlit("декабря");
    let name = month_name(month);
    assert(name.len() >= 3);
    assert forall|i: int| 0 <= i < name.len() implies !is_whitespace(#[trigger] name[i]) by {
        lemma_month_plain(month);
        assert(is_small_letter(name[i]));
    }
    assert("января"@[0] == 'я' && "января"@[1] == 'н' && "января"@[2] == 'в');
    assert("февраля"@[0] == 'ф' && "февраля"@[1] == 'е' && "февраля"@[2] == 'в');
    assert("марта"@[0] == 'м' && "марта"@[1] == 'а' && "марта"@[2] == 'р');
    assert("апреля"@[0] == 'а' && "апреля"@[1] == 'п' && "апреля"@[2] == 'р');
    assert("мая"@[0] == 'м' && "мая"@[1] == 'а' && "мая"@[2] == 'я');
    assert("июня"@[0] == 'и' && "июня"@[1] == 'ю' && "июня"@[2] == 'н');
    assert("июля"@[0] == 'и' && "июля"@[1] == 'ю' && "июля"@[2] == 'л');
    assert("августа"@[0] == 'а' && "августа"@[1] == 'в' && "августа"@[2] == 'г');
    assert("сентября"@[0] == 'с' && "сентября"@[1] == 'е' && "сентября"@[2] == 'н');
    assert("октября"@[0] == 'о' && "октября"@[1] == 'к' && "октября"@[2] == 'т');
    assert("ноября"@[0] == 'н' && "ноября"@[1] == 'о' && "ноября"@[2] == 'я');
    assert("декабря"@[0] == 'д' && "декабря"@[1] == 'е' && "декабря"@[2] == 'к');
}

/// A text of digits, with or without a sign before it, is one word.
pub proof fn lemma_number_word(s: Seq<char>)
    requires
        s.len() > 0,
        forall|i: int| 0 <= i < s.len() ==> is_digit(#[trigger] s[i]) || s[i] == '-',
    ensures
        is_word(s),
{
}

/// A day that is written out with the name of its month is read back.
pub proof fn law_rus_date_round_trip(d: (int, int, int))
    requires
        valid_ymd(d.0, d.1, d.2),
    ensures
        rus_date_of(rus_date_text(d)) == Ok::<(int, int, int), ErrorKind>(d),
        trim(rus_date_text(d)) == rus_date_text(d),
{
    reveal_strlit(" ");
    reveal_strlit(" г.");
    let day = pad2(d.2 as nat);
    let month = month_name(d.1);
    let year = signed_decimal(d.0);
    let tail = " г."@;
    let core = day + " "@ + month + " "@ + year;
    let text = rus_date_text(d);
    let cls = CharClass::DateTail;
    lemma_number_figures(d.2 as nat);
    lemma_year_figures(d.0);
    lemma_month_word(d.1);
    crate::number::lemma_parse_pad2(d.2 as nat, u32::MAX as int);
    crate::number::lemma_parse_signed_decimal(d.0, i32::MAX as int);
    crate::number::lemma_decimal_digits(if d.0 < 0 {
        (-d.0) as nat
    } else {
        d.0 as nat
    });
    assert(text =~= core + tail);
    assert(text[0] == day[0]);
    assert(text.last() == '.');
    lemma_trim_identity(text);
    let n = core.len() as int;
    assert(core.last() == year.last());
    assert(text[n - 1] == core.last());
    assert(text[n] == ' ' && text[n + 1] == 'г' && text[n + 2] == '.');
    assert(!cls.has(text[n - 1]));
    assert forall|i: int| n <= i < text.len() implies cls.has(#[trigger] text[i]) by {
        assert(text[i] == tail[i - n]);
    }
    crate::text::lemma_run_start(text, cls, n, text.len() as int);
    assert(text.take(n) =~= core);
    assert(strip_end(text, cls) == core);
    assert(core[0] == day[0]);
    lemma_trim_identity(core);
    assert forall|i: int| 0 <= i < day.len() implies is_digit(#[trigger] day[i]) by {
        crate::number::lemma_parse_pad2(d.2 as nat, 99);
    }
    lemma_number_word(day);
    assert forall|i: int| 0 <= i < year.len() implies is_digit(#[trigger] year[i]) || year[i]
        == '-' by {
        if d.0 < 0 {
            if i > 0 {
                assert(year[i] == decimal((-d.0) as nat)[i - 1]);
            }
        }
    }
    lemma_number_word(year);
    let space = ' ';
    assert(" "@ =~= seq![space]);
    lemma_tokens_behind_word(day, space, month + " "@ + year);
    lemma_tokens_behind_word(month, space, year);
    lemma_tokens_behind_word(year, space, Seq::empty());
    assert(core =~= day + seq![space] + (month + " "@ + year));
    assert(month + " "@ + year =~= month + seq![space] + year);
    let words = date_words(text);
    assert(words =~= seq![day, month, year]);
}

/// A day that is written out behind the words that introduce it, as the
/// cells of the period hold it, is read back from the cell.
pub proof fn lemma_period_cell(intro: Seq<char>, d: (int, int, int))
    requires
        valid_ymd(d.0, d.1, d.2),
        intro.len() > 0,
        !is_whitespace(intro[0]),
    ensures
        rus_date_of(
            trim(strip_prefix_all(trim(intro + seq![' '] + rus_date_text(d)), intro)),
        ) == Ok::<(int, int, int), ErrorKind>(d),
{
    let ws = CharClass::Whitespace;
    let date = rus_date_text(d);
    let cell = intro + seq![' '] + date;
    law_rus_date_round_trip(d);
    lemma_rus_date_plain(d);
    crate::text::lemma_trim_ends(date);
    assert(cell[0] == intro[0]);
    assert(cell.last() == date.last());
    lemma_trim_identity(cell);
    assert(cell.subrange(0, intro.len() as int) =~= intro);
    let rest = cell.skip(intro.len() as int);
    assert(rest =~= seq![' '] + date);
    assert(!starts_with(rest, intro)) by {
        if starts_with(rest, intro) {
            assert(rest.subrange(0, intro.len() as int)[0] == rest[0]);
        }
    }
    assert(strip_prefix_all(cell, intro) == rest) by {
        reveal_with_fuel(strip_prefix_all, 2);
    }
    assert(rest[1] == date[0]);
    lemma_run_end(rest, ws, 0, 1);
    assert(rest.skip(1) =~= date);
    crate::text::lemma_run_start(date, ws, date.len() as int, date.len() as int);
    assert(date.take(date.len() as int) =~= date);
    assert(trim(rest) == date);
}

/// Whether a text holds the character `c` nowhere from `from` on.
pub open spec fn free_of(s: Seq<char>, c: char, from: int) -> bool {
    forall|j: int| from <= j < s.len() ==> s[j] != c
}

/// Two texts that are free of a character give a text that is free of it.
pub proof fn lemma_free_add(a: Seq<char>, b: Seq<char>, c: char, from: int)
    requires
        0 <= from <= a.len(),
        free_of(a, c, from),
        free_of(b, c, 0),
    ensures
        free_of(a + b, c, from),
{
    assert forall|j: int| from <= j < (a + b).len() implies (a + b)[j] != c by {
        if j < a.len() {
            assert((a + b)[j] == a[j]);
        } else {
            assert((a + b)[j] == b[j - a.len()]);
        }
    }
}

/// A plain text holds no capital letter.
pub proof fn lemma_plain_free(s: Seq<char>)
    requires
        all_plain(s),
    ensures
        free_of(s, 'Д', 0),
{
    assert forall|j: int| 0 <= j < s.len() implies s[j] != 'Д' by {
        assert(is_figure(s[j]) || is_small_letter(s[j]));
    }
}

/// A text of figures is plain.
pub proof fn lemma_figures_plain(s: Seq<char>)
    requires
        all_figures(s),
    ensures
        all_plain(s),
        free_of(s, 'Д', 0),
{
    assert forall|j: int| 0 <= j < s.len() implies s[j] != 'Д' by {
        assert(is_figure(s[j]));
    }
}

/// Whether the header block of a statement can be told from the table: no
/// text that the statement brings into it holds the label of the table.
pub open spec fn header_fits(s: StatementView) -> bool {
    &&& !contains(s.account_id, table_label())
    &&& s.account_name matches Some(name) ==> !contains(name, table_label())
    &&& s.currency matches CurrencyView::Other(name) ==> !contains(name, table_label())
}

/// Whether the dates of a statement are days of the calendar.
pub open spec fn dates_valid(s: StatementView) -> bool {
    &&& valid_ymd(s.period_from.0, s.period_from.1, s.period_from.2)
    &&& valid_ymd(s.period_until.0, s.period_until.1, s.period_until.2)
    &&& forall|i: int|
        0 <= i < s.transactions.len() ==> valid_ymd(
            (#[trigger] s.transactions[i]).booking_date.0,
            s.transactions[i].booking_date.1,
            s.transactions[i].booking_date.2,
        )
}

/// The latest booking date of valid dates is a valid date.
pub proof fn lemma_latest_valid(s: StatementView, n: int)
    requires
        dates_valid(s),
        0 <= n <= s.transactions.len(),
    ensures
        ({
            let d = latest_booking(s.transactions, n, s.period_from);
            valid_ymd(d.0, d.1, d.2)
        }),
    decreases n,
{
    if n > 1 {
        lemma_latest_valid(s, n - 1);
        assert(valid_ymd(
            s.transactions[n - 1].booking_date.0,
            s.transactions[n - 1].booking_date.1,
            s.transactions[n - 1].booking_date.2,
        ));
    } else if n == 1 {
        assert(valid_ymd(
            s.transactions[0].booking_date.0,
            s.transactions[0].booking_date.1,
            s.transactions[0].booking_date.2,
        ));
    }
}

/// No name of a currency holds the label of the table.
pub proof fn lemma_currency_lacks(s: StatementView)
    requires
        header_fits(s),
    ensures
        !contains(currency_label_text(s.currency), table_label()),
{
    reveal_strlit("Дата проводки");
    reveal_strlit("Российский рубль");
    reveal_strlit("Евро");
    reveal_strlit("Доллар США");
    reveal_strlit("Китайский юань");
    match s.currency {
        CurrencyView::RUB => lemma_lacks("Российский рубль"@, table_label()),
        CurrencyView::EUR => lemma_lacks("Евро"@, table_label()),
        CurrencyView::USD => lemma_lacks_but_first("Доллар США"@, table_label(), 1),
        CurrencyView::CNY => lemma_lacks("Китайский юань"@, table_label()),
        CurrencyView::Other(_) => {},
    }
}

/// The cells of the header block that tell when the export was made, its
/// period and its latest transaction do not hold the label of the table.
pub proof fn lemma_dated_cells_lack(s: StatementView, day: (int, int, int), clock: (int, int, int))
    requires
        dates_valid(s),
        valid_ymd(day.0, day.1, day.2),
        0 <= clock.0 && 0 <= clock.1 && 0 <= clock.2,
    ensures
        !contains(dotted_text(day), table_label()),
        !contains(
            "Дата формирования выписки "@ + dotted_text(day) + " в "@ + clock_text(clock),
            table_label(),
        ),
        !contains("за период с "@ + rus_date_text(s.period_from), table_label()),
        !contains("по "@ + rus_date_text(s.period_until), table_label()),
        !contains(
            "Дата предыдущей операции по счету "@ + rus_date_text(
                latest_booking(s.transactions, s.transactions.len() as int, s.period_from),
            ),
            table_label(),
        ),
{
    reveal_strlit("Дата проводки");
    reveal_strlit("Дата формирования выписки ");
    reveal_strlit(" в ");
    reveal_strlit("за период с ");
    reveal_strlit("по ");
    reveal_strlit("Дата предыдущей операции по счету ");
    let label = table_label();
    let dotted = dotted_text(day);
    lemma_dotted_figures(day);
    lemma_figures_plain(dotted);
    lemma_lacks(dotted, label);
    lemma_clock_figures(clock);
    lemma_figures_plain(clock_text(clock));
    let made = "Дата формирования выписки "@;
    lemma_free_add(made, dotted, 'Д', 1);
    lemma_free_add(made + dotted, " в "@, 'Д', 1);
    lemma_free_add(made + dotted + " в "@, clock_text(clock), 'Д', 1);
    let row3 = made + dotted + " в "@ + clock_text(clock);
    assert(row3[5] == made[5]);
    lemma_lacks_but_first(row3, label, 5);
    let from = rus_date_text(s.period_from);
    let until = rus_date_text(s.period_until);
    lemma_rus_date_plain(s.period_from);
    lemma_rus_date_plain(s.period_until);
    lemma_plain_free(from);
    lemma_plain_free(until);
    lemma_free_add("за период с "@, from, 'Д', 0);
    lemma_lacks("за период с "@ + from, label);
    lemma_free_add("по "@, until, 'Д', 0);
    lemma_lacks("по "@ + until, label);
    let latest = latest_booking(s.transactions, s.transactions.len() as int, s.period_from);
    lemma_latest_valid(s, s.transactions.len() as int);
    lemma_rus_date_plain(latest);
    lemma_plain_free(rus_date_text(latest));
    let before = "Дата предыдущей операции по счету "@;
    lemma_free_add(before, rus_date_text(latest), 'Д', 1);
    assert((before + rus_date_text(latest))[7] == before[7]);
    lemma_lacks_but_first(before + rus_date_text(latest), label, 7);
}

/// No row of the header block holds the label of the table.
pub proof fn lemma_header_rows_lack(s: StatementView, day: (int, int, int), clock: (int, int, int))
    requires
        header_fits(s),
        dates_valid(s),
        valid_ymd(day.0, day.1, day.2),
        0 <= clock.0 && 0 <= clock.1 && 0 <= clock.2,
    ensures
        header_rows(s, day, clock).len() == 9,
        forall|i: int|
            0 <= i < 9 ==> first_holding(#[trigger] header_rows(s, day, clock)[i], table_label(), 0)
                >= header_rows(s, day, clock)[i].len(),
{
    let label = table_label();
    let rows = header_rows(s, day, clock);
    lemma_header_texts();
    lemma_currency_lacks(s);
    lemma_dated_cells_lack(s, day, clock);
    let empty = Seq::<char>::empty();
    assert forall|i: int| 0 <= i < 9 implies first_holding(#[trigger] rows[i], label, 0)
        >= rows[i].len() by {
        let row = rows[i];
        assert forall|k: int| 0 <= k < row.len() implies !contains(#[trigger] row[k], label) by {
            if row[k] != empty {
                if i == 4 {
                    assert(k == 1 || k == 12);
                } else if i == 6 {
                    assert(k == 2 || k == 14 || k == 15);
                } else if i == 7 {
                    assert(k == 2 || k == 12);
                }
            }
        }
        lemma_row_lacks(row, label, 0);
    }
}

/// The column of a label that stands in a cell of its own, where no cell
/// before it is the label.
pub proof fn lemma_first_exact(row: Seq<Seq<char>>, label: Seq<char>, from: int, at: int)
    requires
        0 <= from <= at < row.len(),
        forall|i: int| from <= i < at ==> trim(#[trigger] row[i]) != label,
        trim(row[at]) == label,
    ensures
        first_exact(row, label, from) == at,
    decreases at - from,
{
    if from < at {
        assert(trim(row[from]) != label);
        lemma_first_exact(row, label, from + 1, at);
    }
}

/// A row of which no cell is a label.
pub proof fn lemma_no_exact(row: Seq<Seq<char>>, label: Seq<char>, from: int)
    requires
        0 <= from,
        forall|i: int| 0 <= i < row.len() ==> trim(#[trigger] row[i]) != label,
    ensures
        first_exact(row, label, from) >= row.len(),
    decreases row.len() - from,
{
    if from < row.len() {
        assert(trim(row[from]) != label);
        lemma_no_exact(row, label, from + 1);
    }
}

/// The first cell that holds a label, where no cell before it does.
pub proof fn lemma_first_holding(row: Seq<Seq<char>>, label: Seq<char>, from: int, at: int)
    requires
        0 <= from <= at < row.len(),
        forall|i: int| from <= i < at ==> !contains(#[trigger] row[i], label),
        contains(row[at], label),
    ensures
        first_holding(row, label, from) == at,
    decreases at - from,
{
    if from < at {
        assert(!contains(row[from], label));
        lemma_first_holding(row, label, from + 1, at);
    }
}

/// The columns in which the export writes the fields of a transaction.
pub open spec fn written_layout() -> TableLayout {
    TableLayout {
        booking_date_col: 1,
        debit_account_col: 4,
        credit_account_col: 8,
        debit_amount_col: 9,
        credit_amount_col: 13,
        doc_number_col: 14,
        operation_type_col: 16,
        bank_col: 17,
        transaction_purpose_col: 20,
    }
}

/// The labels of the table are trimmed texts, and the empty text is none
/// of them.
pub proof fn lemma_labels_trimmed()
    ensures
        trim("Дата проводки"@) == "Дата проводки"@,
        trim("Счет"@) == "Счет"@,
        trim("Сумма по дебету"@) == "Сумма по дебету"@,
        trim("Сумма по кредиту"@) == "Сумма по кредиту"@,
        trim("№ документа"@) == "№ документа"@,
        trim("ВО"@) == "ВО"@,
        trim("Банк (БИК и наименование)"@) == "Банк (БИК и наименование)"@,
        trim("Назначение платежа"@) == "Назначение платежа"@,
        trim("Дебет"@) == "Дебет"@,
        trim("Кредит"@) == "Кредит"@,
        trim(Seq::<char>::empty()) == Seq::<char>::empty(),
{
    reveal_strlit("Дата проводки");
    reveal_strlit("Счет");
    reveal_strlit("Сумма по дебету");
    reveal_strlit("Сумма по кредиту");
    reveal_strlit("№ документа");
    reveal_strlit("ВО");
    reveal_strlit("Банк (БИК и наименование)");
    reveal_strlit("Назначение платежа");
    reveal_strlit("Дебет");
    reveal_strlit("Кредит");
    lemma_trim_identity("Дата проводки"@);
    lemma_trim_identity("Счет"@);
    lemma_trim_identity("Сумма по дебету"@);
    lemma_trim_identity("Сумма по кредиту"@);
    lemma_trim_identity("№ документа"@);
    lemma_trim_identity("ВО"@);
    lemma_trim_identity("Банк (БИК и наименование)"@);
    lemma_trim_identity("Назначение платежа"@);
    lemma_trim_identity("Дебет"@);
    lemma_trim_identity("Кредит"@);
    lemma_trim_identity(Seq::<char>::empty());
}

/// The column of a label that the first header row of the table holds in
/// a cell of its own.
pub proof fn lemma_head_column(label: Seq<char>, at: int)
    requires
        0 <= at < 23,
        table_head()[at] == label,
        label.len() > 0,
        label != "Банк (БИК и наименование)"@,
        forall|i: int| 0 <= i < at ==> table_head()[i] != label,
    ensures
        column_of(table_head(), label) == Ok::<usize, ErrorKind>(at as usize),
{
    lemma_labels_trimmed();
    let row = table_head();
    let empty = Seq::<char>::empty();
    assert forall|i: int| 0 <= i <= at implies trim(#[trigger] row[i]) == row[i] by {
        if row[i] != empty {
            assert(i == 1 || i == 4 || i == 9 || i == 13 || i == 14 || i == 16 || i == 17 || i
                == 20);
        }
    }
    lemma_first_exact(row, label, 0, at);
}

/// The two header rows that the export writes give the layout that it
/// writes in.
pub proof fn lemma_layout()
    ensures
        layout_of(table_head(), table_subhead()) == Ok::<TableLayout, ErrorKind>(written_layout()),
{
    lemma_labels_trimmed();
    reveal_strlit("Дата проводки");
    reveal_strlit("Счет");
    reveal_strlit("Сумма по дебету");
    reveal_strlit("Сумма по кредиту");
    reveal_strlit("№ документа");
    reveal_strlit("ВО");
    reveal_strlit("Банк (БИК и наименование)");
    reveal_strlit("Назначение платежа");
    reveal_strlit("Дебет");
    reveal_strlit("Кредит");
    reveal_strlit("Банк");
    let head = table_head();
    let sub = table_subhead();
    let empty = Seq::<char>::empty();
    lemma_head_column("Дата проводки"@, 1);
    lemma_head_column("№ документа"@, 14);
    lemma_head_column("ВО"@, 16);
    lemma_head_column("Назначение платежа"@, 20);
    lemma_head_column("Сумма по дебету"@, 9);
    lemma_head_column("Сумма по кредиту"@, 13);
    assert forall|i: int| 0 <= i < 8 implies trim(#[trigger] sub[i]) == sub[i] by {
        if sub[i] != empty {
            assert(i == 4);
        }
    }
    lemma_first_exact(sub, "Дебет"@, 0, 4);
    lemma_first_exact(sub, "Кредит"@, 0, 8);
    let bank = "Банк"@;
    assert("Счет"@[0] != bank[0]);
    assert forall|i: int| 0 <= i < head.len() implies trim(#[trigger] head[i]) != bank by {
        if head[i] != empty {
            assert(i == 1 || i == 4 || i == 9 || i == 13 || i == 14 || i == 16 || i == 17 || i
                == 20);
        }
    }
    lemma_no_exact(head, bank, 0);
    lemma_lacks("Дата проводки"@, bank);
    lemma_lacks("Счет"@, bank);
    lemma_lacks("Сумма по дебету"@, bank);
    lemma_lacks("Сумма по кредиту"@, bank);
    lemma_lacks("№ документа"@, bank);
    lemma_lacks("ВО"@, bank);
    lemma_lacks(empty, bank);
    assert("Банк (БИК и наименование)"@.subrange(0, 4) =~= bank);
    assert(contains(head[17], bank)) by {
        assert(occurs_at(head[17], bank, 0));
    }
    assert forall|i: int| 0 <= i < 17 implies !contains(#[trigger] head[i], bank) by {
        if head[i] != empty {
            assert(i == 1 || i == 4 || i == 9 || i == 13 || i == 14 || i == 16);
        }
    }
    lemma_first_holding(head, bank, 0, 17);
}

/// A text that begins with neither white space nor the first letter of a
/// footer marker marks no footer. Neither does the empty text.
pub proof fn lemma_not_marker(text: Seq<char>)
    requires
        text.len() > 0 ==> !is_whitespace(text[0]) && text[0] != 'б' && text[0] != 'К' && text[0]
            != 'В' && text[0] != 'И',
    ensures
        !is_footer_marker(text),
        text.len() > 0 ==> !is_blank(text),
{
    reveal_strlit("б/с");
    reveal_strlit("Количество операций");
    reveal_strlit("Входящий остаток");
    reveal_strlit("Исходящий остаток");
    reveal_strlit("Итого оборотов");
    let ws = CharClass::Whitespace;
    let f = trim(text);
    if text.len() > 0 {
        lemma_run_end(text, ws, 0, 0);
        assert(text.skip(0) =~= text);
        lemma_run_start_props(text, ws, text.len() as int);
        let b = run_start(text, ws, text.len() as int);
        if b == 0 {
            assert(ws.has(text[0]));
        }
        assert(f == text.take(b));
        assert(f[0] == text[0]);
    } else {
        lemma_trim_identity(text);
    }
    assert(!starts_with(f, "Количество операций"@)) by {
        if starts_with(f, "Количество операций"@) {
            assert(f.subrange(0, "Количество операций"@.len() as int)[0] == 'К');
        }
    }
    assert(!starts_with(f, "Входящий остаток"@)) by {
        if starts_with(f, "Входящий остаток"@) {
            assert(f.subrange(0, "Входящий остаток"@.len() as int)[0] == 'В');
        }
    }
    assert(!starts_with(f, "Исходящий остаток"@)) by {
        if starts_with(f, "Исходящий остаток"@) {
            assert(f.subrange(0, "Исходящий остаток"@.len() as int)[0] == 'И');
        }
    }
    assert(!starts_with(f, "Итого оборотов"@)) by {
        if starts_with(f, "Итого оборотов"@) {
            assert(f.subrange(0, "Итого оборотов"@.len() as int)[0] == 'И');
        }
    }
    assert(f != "б/с"@) by {
        if f == "б/с"@ {
            assert(f[0] == 'б');
        }
    }
}

/// Whether the texts of a transaction can stand in the table: none of them
/// looks like a marker of the footer.
pub open spec fn row_fits(tx: TransactionView, account: Seq<char>, name: Seq<char>) -> bool {
    let row = transaction_row(tx, account, name);
    !is_footer_marker(row[4]) && !is_footer_marker(row[8]) && !is_footer_marker(row[20])
}

/// A row of a transaction is not blank and does not belong to the footer.
pub proof fn lemma_transaction_row(tx: TransactionView, account: Seq<char>, name: Seq<char>)
    requires
        row_fits(tx, account, name),
        valid_ymd(tx.booking_date.0, tx.booking_date.1, tx.booking_date.2),
    ensures
        transaction_row(tx, account, name).len() == 23,
        !is_footer(transaction_row(tx, account, name)),
        first_filled(transaction_row(tx, account, name), 0) < 23,
{
    let row = transaction_row(tx, account, name);
    let empty = Seq::<char>::empty();
    let date = dotted_text(tx.booking_date);
    let amount = minor_units_text(tx.amount as int, '.');
    lemma_dotted_figures(tx.booking_date);
    lemma_amount_text_shape(tx.amount as nat, '.');
    assert(is_digit(amount[0]));
    lemma_not_marker(date);
    lemma_not_marker(amount);
    lemma_not_marker(empty);
    assert forall|k: int| 0 <= k < row.len() implies !is_footer_marker(#[trigger] row[k]) by {
        if k != 1 && k != 4 && k != 8 && k != 9 && k != 13 && k != 20 {
            assert(row[k] == empty);
        } else if k == 1 {
            assert(row[k] == date);
        } else if k == 9 || k == 13 {
            assert(row[k] == amount || row[k] == empty);
        }
    }
    lemma_row_unmarked(row, 0);
    assert(row[0] == empty);
    assert(row[1] == date);
    assert(is_blank(empty)) by {
        lemma_run_end(empty, CharClass::Whitespace, 0, 0);
    }
    assert(first_filled(row, 0) == 1) by {
        reveal_with_fuel(first_filled, 3);
    }
}

/// The rows of the first `n` transactions, one by one.
pub proof fn lemma_transaction_rows(
    txs: Seq<TransactionView>,
    account: Seq<char>,
    name: Seq<char>,
    n: int,
)
    requires
        0 <= n <= txs.len(),
    ensures
        transaction_rows(txs, account, name, n).len() == n,
        forall|i: int|
            0 <= i < n ==> #[trigger] transaction_rows(txs, account, name, n)[i] == transaction_row(
                txs[i],
                account,
                name,
            ),
    decreases n,
{
    if n > 0 {
        lemma_transaction_rows(txs, account, name, n - 1);
    }
}

/// The name of the account as the export writes it: empty where the
/// statement has none.
pub open spec fn written_name(s: StatementView) -> Seq<char> {
    match s.account_name {
        Some(n) => n,
        None => Seq::empty(),
    }
}

/// Whether a statement survives a CSV export as far as its rows go: the
/// header block can be told from the table, the rows of the table from the
/// footer, the dates are days of the calendar, and both balances are there
/// and fit 64 bits.
pub open spec fn fits_csv(s: StatementView) -> bool {
    &&& header_fits(s)
    &&& dates_valid(s)
    &&& s.opening_balance matches Some(b) && -(u64::MAX as int) <= b <= u64::MAX as int
    &&& s.closing_balance matches Some(b) && -(u64::MAX as int) <= b <= u64::MAX as int
    &&& forall|i: int|
        0 <= i < s.transactions.len() ==> row_fits(
            #[trigger] s.transactions[i],
            s.account_id,
            written_name(s),
        )
}

/// The records that the rows of the first `n` transactions are read as.
pub open spec fn read_records(s: StatementView, n: int) -> Seq<CsvRecordView> {
    Seq::new(
        n as nat,
        |i: int|
            record_of(
                transaction_row(s.transactions[i], s.account_id, written_name(s)),
                written_layout(),
            ),
    )
}

/// The rows of the table are read as one record each.
pub proof fn lemma_records(
    s: StatementView,
    day: (int, int, int),
    clock: (int, int, int),
    n: int,
)
    requires
        fits_csv(s),
        0 <= n <= s.transactions.len(),
    ensures
        records_of(csv_document(s, day, clock), written_layout(), 11, 11 + n) == Ok::<
            Seq<CsvRecordView>,
            ErrorKind,
        >(read_records(s, n)),
    decreases n,
{
    let doc = csv_document(s, day, clock);
    let total = s.transactions.len() as int;
    lemma_transaction_rows(s.transactions, s.account_id, written_name(s), total);
    if n > 0 {
        lemma_records(s, day, clock, n - 1);
        let tx = s.transactions[n - 1];
        let row = transaction_row(tx, s.account_id, written_name(s));
        assert(doc[10 + n] == row) by {
            let table = transaction_rows(s.transactions, s.account_id, written_name(s), total);
            assert(table[n - 1] == row);
        }
        assert(valid_ymd(tx.booking_date.0, tx.booking_date.1, tx.booking_date.2));
        lemma_transaction_row(tx, s.account_id, written_name(s));
        assert(read_records(s, n - 1).push(record_of(row, written_layout())) =~= read_records(
            s,
            n,
        ));
    } else {
        assert(read_records(s, 0) =~= Seq::<CsvRecordView>::empty());
    }
}

/// The label of the opening balance in the footer.
pub open spec fn opening_label() -> Seq<char> {
    "Входящий остаток"@
}

/// The label of the closing balance in the footer.
pub open spec fn closing_label() -> Seq<char> {
    "Исходящий остаток"@
}

/// A footer row with another title changes no balance.
pub proof fn lemma_scan_other(
    rows: Seq<Seq<Seq<char>>>,
    n: int,
    before: (Option<Balance>, Option<Balance>),
)
    requires
        0 < n <= rows.len(),
        footer_scan(rows, n - 1) == Ok::<(Option<Balance>, Option<Balance>), ErrorKind>(before),
        trim(cell(rows[n - 1], 1)) != opening_label(),
        trim(cell(rows[n - 1], 1)) != closing_label(),
    ensures
        footer_scan(rows, n) == Ok::<(Option<Balance>, Option<Balance>), ErrorKind>(before),
{
}

/// A footer row with the title of the opening balance sets it.
pub proof fn lemma_scan_opening(
    rows: Seq<Seq<Seq<char>>>,
    n: int,
    before: (Option<Balance>, Option<Balance>),
    balance: Balance,
)
    requires
        0 < n <= rows.len(),
        footer_scan(rows, n - 1) == Ok::<(Option<Balance>, Option<Balance>), ErrorKind>(before),
        trim(cell(rows[n - 1], 1)) == opening_label(),
        footer_balance_of(rows[n - 1]) == Ok::<Balance, ErrorKind>(balance),
    ensures
        footer_scan(rows, n) == Ok::<(Option<Balance>, Option<Balance>), ErrorKind>(
            (Some(balance), before.1),
        ),
{
}

/// A footer row with the title of the closing balance sets it.
pub proof fn lemma_scan_closing(
    rows: Seq<Seq<Seq<char>>>,
    n: int,
    before: (Option<Balance>, Option<Balance>),
    balance: Balance,
)
    requires
        0 < n <= rows.len(),
        footer_scan(rows, n - 1) == Ok::<(Option<Balance>, Option<Balance>), ErrorKind>(before),
        trim(cell(rows[n - 1], 1)) == closing_label(),
        footer_balance_of(rows[n - 1]) == Ok::<Balance, ErrorKind>(balance),
    ensures
        footer_scan(rows, n) == Ok::<(Option<Balance>, Option<Balance>), ErrorKind>(
            (before.0, Some(balance)),
        ),
{
    reveal_strlit("Входящий остаток");
    reveal_strlit("Исходящий остаток");
    assert(opening_label().len() != closing_label().len());
}

/// The titles of the five rows of a footer block with both balances.
pub proof fn lemma_footer_titles(s: StatementView)
    requires
        s.opening_balance is Some,
        s.closing_balance is Some,
    ensures
        footer_rows(s).len() == 5,
        footer_rows(s)[2] == balance_row(opening_label(), s.opening_balance->0, s.period_from),
        footer_rows(s)[4] == balance_row(closing_label(), s.closing_balance->0, s.period_until),
        trim(cell(footer_rows(s)[0], 1)) != opening_label(),
        trim(cell(footer_rows(s)[0], 1)) != closing_label(),
        trim(cell(footer_rows(s)[1], 1)) != opening_label(),
        trim(cell(footer_rows(s)[1], 1)) != closing_label(),
        trim(cell(footer_rows(s)[2], 1)) == opening_label(),
        trim(cell(footer_rows(s)[3], 1)) != opening_label(),
        trim(cell(footer_rows(s)[3], 1)) != closing_label(),
        trim(cell(footer_rows(s)[4], 1)) == closing_label(),
        footer_rows(s)[0][0] == Seq::<char>::empty(),
        is_footer_marker(footer_rows(s)[0][1]),
        footer_rows(s)[0].len() == 23,
{
    reveal_strlit("б/с");
    reveal_strlit("Количество операций");
    reveal_strlit("Входящий остаток");
    reveal_strlit("Исходящий остаток");
    reveal_strlit("Итого оборотов");
    lemma_trim_identity("б/с"@);
    lemma_trim_identity("Количество операций"@);
    lemma_trim_identity("Входящий остаток"@);
    lemma_trim_identity("Исходящий остаток"@);
    lemma_trim_identity("Итого оборотов"@);
    let rows = footer_rows(s);
    assert(rows.len() == 5);
    assert(cell(rows[0], 1) == "б/с"@);
    assert(cell(rows[1], 1) == "Количество операций"@);
    assert(cell(rows[2], 1) == "Входящий остаток"@);
    assert(cell(rows[3], 1) == "Итого оборотов"@);
    assert(cell(rows[4], 1) == "Исходящий остаток"@);
}

/// The rows of the footer block are read as the two balances.
pub proof fn lemma_footer(s: StatementView)
    requires
        fits_csv(s),
    ensures
        footer_rows(s).len() == 5,
        is_footer(footer_rows(s)[0]),
        footer_of(footer_rows(s)) == Ok::<CsvFooter, ErrorKind>(
            CsvFooter {
                opening_balance: s.opening_balance->0,
                closing_balance: s.closing_balance->0,
            },
        ),
{
    let rows = footer_rows(s);
    let opening = s.opening_balance->0;
    let closing = s.closing_balance->0;
    lemma_footer_titles(s);
    law_csv_balance_round_trip(opening_label(), opening, s.period_from);
    law_csv_balance_round_trip(closing_label(), closing, s.period_until);
    let none: Option<Balance> = None;
    assert(footer_scan(rows, 0) == Ok::<(Option<Balance>, Option<Balance>), ErrorKind>(
        (none, none),
    ));
    lemma_scan_other(rows, 1, (none, none));
    lemma_scan_other(rows, 2, (none, none));
    lemma_scan_opening(rows, 3, (none, none), opening);
    lemma_scan_other(rows, 4, (Some(opening), none));
    lemma_scan_closing(rows, 5, (Some(opening), none), closing);
    assert(first_marker(rows[0], 0) == 1) by {
        lemma_not_marker(Seq::<char>::empty());
        reveal_with_fuel(first_marker, 3);
    }
}

/// The first header row of the table holds the label by which it is found.
pub proof fn lemma_head_found()
    ensures
        table_head().len() == 23,
        table_subhead().len() == 23,
        first_holding(table_head(), table_label(), 0) < 23,
{
    reveal_strlit("Дата проводки");
    let label = table_label();
    let head = table_head();
    assert(label.subrange(0, label.len() as int) =~= label);
    assert(occurs_at(label, label, 0));
    assert(contains(head[1], label));
    lemma_lacks(Seq::<char>::empty(), label);
    lemma_first_holding(head, label, 0, 1);
}

/// Where the blocks of an export lie among its rows.
pub proof fn lemma_document(s: StatementView, day: (int, int, int), clock: (int, int, int))
    requires
        fits_csv(s),
    ensures
        ({
            let doc = csv_document(s, day, clock);
            let n = s.transactions.len() as int;
            &&& doc.len() == 16 + n
            &&& doc.take(9) == header_rows(s, day, clock)
            &&& doc[9] == table_head()
            &&& doc[10] == table_subhead()
            &&& forall|i: int|
                0 <= i < n ==> #[trigger] doc[11 + i] == transaction_row(
                    s.transactions[i],
                    s.account_id,
                    written_name(s),
                )
            &&& doc.skip(11 + n) == footer_rows(s)
            &&& doc[11 + n] == footer_rows(s)[0]
        }),
{
    let doc = csv_document(s, day, clock);
    let n = s.transactions.len() as int;
    let header = header_rows(s, day, clock);
    let table = transaction_rows(s.transactions, s.account_id, written_name(s), n);
    let footer = footer_rows(s);
    lemma_transaction_rows(s.transactions, s.account_id, written_name(s), n);
    lemma_footer_titles(s);
    assert(header.len() == 9);
    assert(doc == header + seq![table_head(), table_subhead()] + table + footer);
    assert(doc.take(9) =~= header);
    assert(doc.skip(11 + n) =~= footer);
    assert forall|i: int| 0 <= i < n implies #[trigger] doc[11 + i] == transaction_row(
        s.transactions[i],
        s.account_id,
        written_name(s),
    ) by {
        assert(doc[11 + i] == table[i]);
    }
}

/// The table of an export begins at its tenth row, and its footer block
/// begins behind the rows of the transactions.
pub proof fn lemma_blocks(s: StatementView, day: (int, int, int), clock: (int, int, int))
    requires
        fits_csv(s),
        valid_ymd(day.0, day.1, day.2),
        0 <= clock.0 && 0 <= clock.1 && 0 <= clock.2,
    ensures
        first_row_holding(csv_document(s, day, clock), table_label(), 0) == 9,
        first_footer_row(csv_document(s, day, clock), 11) == 11 + s.transactions.len(),
{
    let doc = csv_document(s, day, clock);
    let n = s.transactions.len() as int;
    let label = table_label();
    lemma_document(s, day, clock);
    lemma_header_rows_lack(s, day, clock);
    lemma_head_found();
    assert forall|i: int| 0 <= i < 9 implies first_holding(#[trigger] doc[i], label, 0)
        >= doc[i].len() by {
        assert(doc[i] == doc.take(9)[i]);
    }
    lemma_first_row(doc, label, 0, 9);
    lemma_footer(s);
    assert forall|i: int| 11 <= i < 11 + n implies !is_footer(#[trigger] doc[i]) by {
        let tx = s.transactions[i - 11];
        assert(doc[11 + (i - 11)] == transaction_row(tx, s.account_id, written_name(s)));
        assert(valid_ymd(tx.booking_date.0, tx.booking_date.1, tx.booking_date.2));
        lemma_transaction_row(tx, s.account_id, written_name(s));
    }
    lemma_first_footer(doc, 11, 11 + n);
}

/// The rows of an export are read as its header, one record for each
/// transaction, and its footer.
pub proof fn lemma_data(s: StatementView, day: (int, int, int), clock: (int, int, int))
    requires
        fits_csv(s),
        valid_ymd(day.0, day.1, day.2),
        0 <= clock.0 && 0 <= clock.1 && 0 <= clock.2,
    ensures
        header_of(header_rows(s, day, clock)) is Ok,
        data_of(csv_document(s, day, clock)) == Ok::<CsvDataView, ErrorKind>(
            CsvDataView {
                header: header_of(header_rows(s, day, clock))->Ok_0,
                records: read_records(s, s.transactions.len() as int),
                footer: CsvFooter {
                    opening_balance: s.opening_balance->0,
                    closing_balance: s.closing_balance->0,
                },
            },
        ),
{
    let n = s.transactions.len() as int;
    lemma_document(s, day, clock);
    lemma_blocks(s, day, clock);
    lemma_layout();
    lemma_records(s, day, clock, n);
    lemma_footer(s);
}

/// Whether a record holds what was written for a transaction: the booking
/// date as it was written, the amount on the side of the direction, and the
/// description without the white space around it.
pub open spec fn record_agrees(record: CsvRecordView, tx: TransactionView) -> bool {
    &&& record.booking_date == dotted_text(tx.booking_date)
    &&& amount_and_direction_of(record.debit_amount, record.credit_amount) == Ok::<
        (u64, Direction),
        ErrorKind,
    >((tx.amount, tx.direction))
    &&& record.transaction_purpose == Some(trim(tx.description))
}

/// A record that is read from the row of a transaction has its booking
/// date as it was written, its amount, its direction, and its description
/// without the white space around it.
pub proof fn lemma_record(tx: TransactionView, account: Seq<char>, name: Seq<char>)
    requires
        valid_ymd(tx.booking_date.0, tx.booking_date.1, tx.booking_date.2),
    ensures
        record_agrees(record_of(transaction_row(tx, account, name), written_layout()), tx),
{
    let row = transaction_row(tx, account, name);
    lemma_dotted_figures(tx.booking_date);
    lemma_trim_identity(dotted_text(tx.booking_date));
    law_csv_row_round_trip(tx, account, name);
    assert(row[1] == dotted_text(tx.booking_date));
    assert(row.len() == 23);
}

/// The header that is read from the header block of an export has the
/// account, the name of the account, the currency and the period as they
/// were written.
pub proof fn lemma_header_fields(s: StatementView, day: (int, int, int), clock: (int, int, int))
    ensures
        header_of(header_rows(s, day, clock)) is Ok,
        ({
            let header = header_of(header_rows(s, day, clock))->Ok_0;
            &&& header.client_account == trim(s.account_id)
            &&& header.client_name == trim(written_name(s))
            &&& header.currency == trim(currency_label_text(s.currency))
            &&& header.period_from == trim("за период с "@ + rus_date_text(s.period_from))
            &&& header.period_until == trim("по "@ + rus_date_text(s.period_until))
        }),
{
    let rows = header_rows(s, day, clock);
    assert(rows.len() == 9);
    assert(cell(rows[4], 12) == s.account_id);
    assert(cell(rows[5], 12) == written_name(s));
    assert(cell(rows[7], 2) == currency_label_text(s.currency));
    assert(cell(rows[6], 2) == "за период с "@ + rus_date_text(s.period_from));
    assert(cell(rows[6], 15) == "по "@ + rus_date_text(s.period_until));
}

/// The records that are read from the rows of the transactions hold what
/// was written for them.
pub proof fn lemma_records_agree(s: StatementView)
    requires
        dates_valid(s),
    ensures
        read_records(s, s.transactions.len() as int).len() == s.transactions.len(),
        forall|i: int|
            0 <= i < s.transactions.len() ==> record_agrees(
                #[trigger] read_records(s, s.transactions.len() as int)[i],
                s.transactions[i],
            ),
{
    let n = s.transactions.len() as int;
    assert forall|i: int| 0 <= i < n implies record_agrees(
        #[trigger] read_records(s, n)[i],
        s.transactions[i],
    ) by {
        let tx = s.transactions[i];
        assert(valid_ymd(tx.booking_date.0, tx.booking_date.1, tx.booking_date.2));
        lemma_record(tx, s.account_id, written_name(s));
    }
}

/// A statement that is written as the rows of a CSV export is read back
/// from them: the header with its account, the name of the account, the
/// currency and the period as they were written; one record for each
/// transaction, with its booking date as it was written, its amount, its
/// direction and its description without the white space around it; and the
/// footer with both balances.
pub proof fn law_csv_rows_round_trip(s: StatementView, day: (int, int, int), clock: (int, int, int))
    requires
        fits_csv(s),
        valid_ymd(day.0, day.1, day.2),
        0 <= clock.0 && 0 <= clock.1 && 0 <= clock.2,
    ensures
        data_of(csv_document(s, day, clock)) is Ok,
        ({
            let d = data_of(csv_document(s, day, clock))->Ok_0;
            &&& d.header.client_account == trim(s.account_id)
            &&& d.header.client_name == trim(written_name(s))
            &&& d.header.currency == trim(currency_label_text(s.currency))
            &&& d.header.period_from == trim("за период с "@ + rus_date_text(s.period_from))
            &&& d.header.period_until == trim("по "@ + rus_date_text(s.period_until))
            &&& d.footer == CsvFooter {
                opening_balance: s.opening_balance->0,
                closing_balance: s.closing_balance->0,
            }
            &&& d.records.len() == s.transactions.len()
            &&& forall|i: int|
                0 <= i < s.transactions.len() ==> record_agrees(
                    #[trigger] d.records[i],
                    s.transactions[i],
                )
        }),
{
    lemma_data(s, day, clock);
    lemma_header_fields(s, day, clock);
    lemma_records_agree(s);
}

/// Whether a text can stand on a line of a party block and be read back
/// as it is: it is not empty, holds no line feed, and neither begins nor
/// ends with white space.
pub open spec fn is_clean(text: Seq<char>) -> bool {
    &&& text.len() > 0
    &&& forall|j: int| 0 <= j < text.len() ==> text[j] != '\n'
    &&& !is_whitespace(text[0])
    &&& !is_whitespace(text.last())
}

/// A party block with a clean account and a clean name, or no name, is
/// read as that account and that name, or as that account and no name.
pub proof fn lemma_party_block(account: Seq<char>, name: Seq<char>)
    requires
        is_clean(account),
        name.len() == 0 || is_clean(name),
    ensures
        account_and_name_of(trim(party_block(account, name))).0 == Some(account),
        name != no_name() ==> account_and_name_of(trim(party_block(account, name))).1 == (
            if name.len() == 0 {
                None
            } else {
                Some(name)
            }
        ),
{
    reveal_strlit("-");
    reveal_strlit("\n-\n");
    let dash = "-"@;
    let third = if name.len() == 0 {
        dash
    } else {
        name
    };
    let block = party_block(account, name);
    let first_two = seq![account, dash];
    assert(unlines(first_two) =~= account + "\n-\n"@) by {
        reveal_with_fuel(unlines, 3);
    }
    assert(block =~= unlines(first_two) + third);
    assert(block[0] == account[0]);
    assert(block.last() == third.last());
    lemma_trim_identity(block);
    lemma_lines_open(first_two, third);
    let all = first_two.push(third);
    assert(lines(block) == all);
    lemma_trim_identity(account);
    lemma_trim_identity(dash);
    lemma_trim_identity(third);
    lemma_blank_trim(account);
    lemma_blank_trim(dash);
    lemma_blank_trim(third);
    assert(filled_lines(all, 3) =~= all) by {
        reveal_with_fuel(filled_lines, 4);
    }
    assert(dash =~= no_name());
    assert(all[2] == third);
}

/// An empty party block is read as nobody.
pub proof fn lemma_no_party()
    ensures
        account_and_name_of(trim(party_block(Seq::empty(), Seq::empty()))) == (
            None::<Seq<char>>,
            None::<Seq<char>>,
        ),
{
    let empty = Seq::<char>::empty();
    lemma_trim_identity(empty);
    assert(lines(empty) =~= Seq::<Seq<char>>::empty());
}

/// Whether the counterparty of a transaction survives a party block: the
/// transaction names nobody, or a counterparty with a clean account, other
/// than the statement's, and with no name or a clean one that is more than
/// the mark for a name that is not known.
pub open spec fn party_fits(tx: TransactionView, account: Seq<char>) -> bool {
    (tx.counterparty is None && tx.counterparty_name is None) || (tx.counterparty is Some
        && is_clean(tx.counterparty->0) && tx.counterparty->0 != account && (
    tx.counterparty_name is None || (is_clean(tx.counterparty_name->0) && tx.counterparty_name->0
        != no_name())))
}

/// The counterparty of a transaction is read back from the row that was
/// written for it where the statement's account is clean, its name is clean
/// or absent, and the transaction names either nobody or a counterparty with
/// a clean account, other than the statement's, and with a clean name or
/// none.
pub proof fn law_csv_counterparty_round_trip(
    tx: TransactionView,
    account: Seq<char>,
    name: Seq<char>,
)
    requires
        is_clean(account),
        name.len() == 0 || is_clean(name),
        party_fits(tx, account),
    ensures
        ({
            let record = record_of(transaction_row(tx, account, name), written_layout());
            counterparty_account_of(record.debit_account, record.credit_account, account) == (
                tx.counterparty,
                tx.counterparty_name,
            )
        }),
{
    let row = transaction_row(tx, account, name);
    let ours = party_block(account, name);
    lemma_party_block(account, name);
    let empty = Seq::<char>::empty();
    let theirs = party_block(
        match tx.counterparty {
            Some(c) => c,
            None => empty,
        },
        match tx.counterparty_name {
            Some(n) => n,
            None => empty,
        },
    );
    match tx.counterparty {
        Some(c) => {
            lemma_party_block(
                c,
                match tx.counterparty_name {
                    Some(n) => n,
                    None => empty,
                },
            );
        },
        None => {
            lemma_no_party();
        },
    }
    assert(row.len() == 23);
    match tx.direction {
        Direction::Debit => {
            assert(row[4] == ours);
            assert(row[8] == theirs);
        },
        Direction::Credit => {
            assert(row[4] == theirs);
            assert(row[8] == ours);
        },
    }
}

/// Where the first `n` records stand for transactions, each of them does.
pub proof fn lemma_each_csv_transaction(records: Seq<CsvRecordView>, account: Seq<char>, n: int)
    requires
        0 <= n <= records.len(),
        csv_transactions_of(records, account, n) is Ok,
    ensures
        csv_transactions_of(records, account, n)->Ok_0.len() == n,
        forall|i: int|
            0 <= i < n ==> csv_transaction_of(#[trigger] records[i], account) == Ok::<
                TransactionView,
                ErrorKind,
            >(csv_transactions_of(records, account, n)->Ok_0[i]),
    decreases n,
{
    if n > 0 {
        lemma_each_csv_transaction(records, account, n - 1);
    }
}

/// Whether a transaction that was read from a row agrees with the one that
/// was written: on amount and direction; on the description but for the
/// white space around it; it has no value date, and the booking date that
/// is read from the date that was written for it; and where the texts of
/// the parties are clean, it has the counterparty that was written.
pub open spec fn csv_agrees(
    read: TransactionView,
    written: TransactionView,
    account: Seq<char>,
    name: Seq<char>,
) -> bool {
    &&& read.amount == written.amount
    &&& read.direction == written.direction
    &&& read.description == trim(written.description)
    &&& read.value_date is None
    &&& chrono_date(dotted_text(written.booking_date), "%d.%m.%Y"@) == Some(read.booking_date)
    &&& is_clean(account) && (name.len() == 0 || is_clean(name)) && party_fits(written, account)
        ==> read.counterparty == written.counterparty && read.counterparty_name
        == written.counterparty_name
}

/// The header that is read from a written export names the period and the
/// currency that were written, the currency where it is one that the library
/// knows by name.
pub proof fn lemma_read_header(s: StatementView, day: (int, int, int), clock: (int, int, int))
    requires
        fits_csv(s),
        valid_ymd(day.0, day.1, day.2),
        0 <= clock.0 && 0 <= clock.1 && 0 <= clock.2,
    ensures
        ({
            let header = data_of(csv_document(s, day, clock))->Ok_0.header;
            &&& rus_date_of(trim(strip_prefix_all(header.period_from, "за период с"@))) == Ok::<
                (int, int, int),
                ErrorKind,
            >(s.period_from)
            &&& rus_date_of(trim(strip_prefix_all(header.period_until, "по"@))) == Ok::<
                (int, int, int),
                ErrorKind,
            >(s.period_until)
            &&& !(s.currency is Other) ==> crate::utils::currency_of_text(header.currency)
                == s.currency
        }),
{
    if !(s.currency is Other) {
        crate::laws::law_currency_round_trip(s.currency);
        crate::text::lemma_trim_idempotent(currency_label_text(s.currency));
    }
    reveal_strlit("за период с ");
    reveal_strlit("за период с");
    reveal_strlit("по ");
    reveal_strlit("по");
    assert("за период с "@ =~= "за период с"@ + seq![' ']);
    assert("по "@ =~= "по"@ + seq![' ']);
    lemma_period_cell("за период с"@, s.period_from);
    lemma_period_cell("по"@, s.period_until);
    law_csv_rows_round_trip(s, day, clock);
}

/// A transaction that is read from a written export agrees with the one
/// that was written.
pub proof fn lemma_read_transaction(
    s: StatementView,
    day: (int, int, int),
    clock: (int, int, int),
    i: int,
)
    requires
        fits_csv(s),
        valid_ymd(day.0, day.1, day.2),
        0 <= clock.0 && 0 <= clock.1 && 0 <= clock.2,
        0 <= i < s.transactions.len(),
        data_of(csv_document(s, day, clock)) matches Ok(d) && csv_transaction_of(
            d.records[i],
            d.header.client_account,
        ) is Ok,
    ensures
        ({
            let d = data_of(csv_document(s, day, clock))->Ok_0;
            csv_agrees(
                csv_transaction_of(d.records[i], d.header.client_account)->Ok_0,
                s.transactions[i],
                s.account_id,
                written_name(s),
            )
        }),
{
    law_csv_rows_round_trip(s, day, clock);
    lemma_data(s, day, clock);
    let d = data_of(csv_document(s, day, clock))->Ok_0;
    let tx = s.transactions[i];
    assert(record_agrees(d.records[i], tx));
    if is_clean(s.account_id) && (written_name(s).len() == 0 || is_clean(written_name(s)))
        && party_fits(tx, s.account_id) {
        lemma_trim_identity(s.account_id);
        law_csv_counterparty_round_trip(tx, s.account_id, written_name(s));
    }
}

/// A statement that was written as the rows of a CSV export and is read
/// from them has its account and the name of its account but for the white
/// space around them, its currency where that is one that the library knows
/// by name, both ends of its period, its balances, and each transaction
/// with its amount, its direction, its description and, where the texts are
/// clean, its counterparty. Whether the rows are read as a statement at all
/// lies with chrono, and with the order of the two ends of the period: the
/// booking dates are what chrono reads from the dates that it wrote.
pub proof fn law_csv_statement_round_trip(
    s: StatementView,
    day: (int, int, int),
    clock: (int, int, int),
)
    requires
        fits_csv(s),
        valid_ymd(day.0, day.1, day.2),
        0 <= clock.0 && 0 <= clock.1 && 0 <= clock.2,
        csv_statement_of(data_of(csv_document(s, day, clock))->Ok_0) is Ok,
    ensures
        ({
            let back = csv_statement_of(data_of(csv_document(s, day, clock))->Ok_0)->Ok_0;
            &&& back.account_id == trim(s.account_id)
            &&& back.account_name == Some(trim(written_name(s)))
            &&& !(s.currency is Other) ==> back.currency == s.currency
            &&& back.period_from == s.period_from
            &&& back.period_until == s.period_until
            &&& back.opening_balance == s.opening_balance
            &&& back.closing_balance == s.closing_balance
            &&& back.transactions.len() == s.transactions.len()
            &&& forall|i: int|
                0 <= i < s.transactions.len() ==> csv_agrees(
                    #[trigger] back.transactions[i],
                    s.transactions[i],
                    s.account_id,
                    written_name(s),
                )
        }),
{
    let n = s.transactions.len() as int;
    lemma_read_header(s, day, clock);
    law_csv_rows_round_trip(s, day, clock);
    let d = data_of(csv_document(s, day, clock))->Ok_0;
    lemma_each_csv_transaction(d.records, d.header.client_account, n);
    let back = csv_statement_of(d)->Ok_0;
    assert forall|i: int| 0 <= i < n implies csv_agrees(
        #[trigger] back.transactions[i],
        s.transactions[i],
        s.account_id,
        written_name(s),
    ) by {
        lemma_read_transaction(s, day, clock, i);
    }
}

} // verus!
