//! What holds of the codecs as a whole.

pub mod camt053;
pub mod cross;
pub mod csv;
pub mod mt940;
pub mod one_line;

use crate::camt053::models::Camt053Balance;
use crate::camt053::utils::camt_balance_of;
use crate::csv_parser::utils::{cell, footer_balance_of, is_zero_cell};
use crate::date::{mmdd_text, valid_ymd, yymmdd_text};
use crate::error::ErrorKind;
use crate::model::{Balance, CurrencyView, Direction, TransactionView};
use crate::mt940::utils::{booking_date_of, yymmdd_date};
use crate::mt940::{
    all_in, balance_of, balance_value, entry_of, references_of, transaction_of, BalanceView,
    EntryView,
};
use crate::number::{
    decimal, is_digit, lemma_decimal_digits, lemma_parse_decimal, lemma_parse_pad2, pad2,
};
use crate::serialization::camt053_helpers::camt_code_text;
use crate::serialization::common::minor_units_text;
use crate::serialization::csv_helpers::currency_label_text;
use crate::serialization::mt940_helpers::{balance_text, currency_code_text, line_61, mark_of};
use crate::text::{
    find, is_ascii_alphabetic, lemma_run_end, lemma_run_reaches, lemma_trim_identity,
    lemma_without_identity, replaced, trim, CharClass,
};
use crate::utils::{amount_of, clean_amount, currency_of_text, fraction_of, signed_balance_of};
use vstd::prelude::*;

verus! {

/// A currency that the library knows by name is read back from each form
/// in which it is written: from its code in an MT940 message and in a
/// camt.053 statement, and from the name under which an export lists it.
pub proof fn law_currency_round_trip(currency: CurrencyView)
    requires
        !(currency is Other),
    ensures
        currency_of_text(currency_code_text(currency)) == currency,
        currency_of_text(camt_code_text(currency)) == currency,
        currency_of_text(currency_label_text(currency)) == currency,
        trim(currency_label_text(currency)) == currency_label_text(currency),
{
    reveal_strlit("RUB");
    reveal_strlit("USD");
    reveal_strlit("EUR");
    reveal_strlit("CNY");
    reveal_strlit("Российский рубль");
    reveal_strlit("Доллар США");
    reveal_strlit("Евро");
    reveal_strlit("Китайский юань");
    lemma_trim_identity(currency_code_text(currency));
    lemma_trim_identity(camt_code_text(currency));
    lemma_trim_identity(currency_label_text(currency));
}

/// The shape of a written amount: digits, one separator, two digits.
pub proof fn lemma_amount_text_shape(magnitude: nat, separator: char)
    requires
        !is_digit(separator),
    ensures
        ({
            let text = minor_units_text(magnitude as int, separator);
            let units = decimal(magnitude / 100);
            &&& text.len() == units.len() + 3
            &&& units.len() >= 1
            &&& text[units.len() as int] == separator
            &&& forall|i: int|
                0 <= i < text.len() && i != units.len() ==> is_digit(#[trigger] text[i])
            &&& text.take(units.len() as int) == units
            &&& text.skip(units.len() as int + 1) == pad2(magnitude % 100)
        }),
{
    let text = minor_units_text(magnitude as int, separator);
    let units = decimal(magnitude / 100);
    let cents = pad2(magnitude % 100);
    lemma_decimal_digits(magnitude / 100);
    lemma_parse_pad2(magnitude % 100, 99);
    assert(text =~= units + seq![separator] + cents);
    assert(text.take(units.len() as int) =~= units);
    assert(text.skip(units.len() as int + 1) =~= cents);
    assert forall|i: int| 0 <= i < text.len() && i != units.len() implies is_digit(
        #[trigger] text[i],
    ) by {
        if i < units.len() {
            assert(text[i] == units[i]);
        } else {
            assert(text[i] == cents[i - units.len() - 1]);
        }
    }
}

/// Turning the comma of a written amount into a dot gives the amount as
/// it is written with a dot.
pub proof fn lemma_comma_to_dot(magnitude: nat)
    ensures
        replaced(minor_units_text(magnitude as int, ','), ',', '.') == minor_units_text(
            magnitude as int,
            '.',
        ),
        !minor_units_text(magnitude as int, ',').contains('.'),
        !minor_units_text(magnitude as int, '.').contains(','),
        minor_units_text(magnitude as int, ',').contains(','),
{
    let text = minor_units_text(magnitude as int, ',');
    let dotted = minor_units_text(magnitude as int, '.');
    let units = decimal(magnitude / 100);
    let cents = pad2(magnitude % 100);
    let len = units.len() as int;
    lemma_amount_text_shape(magnitude, ',');
    lemma_amount_text_shape(magnitude, '.');
    assert(text[len] == ',');
    assert(!text.contains('.')) by {
        if text.contains('.') {
            let i = choose|i: int| 0 <= i < text.len() && text[i] == '.';
            assert(is_digit(text[i]) || i == len);
        }
    }
    assert(!dotted.contains(',')) by {
        if dotted.contains(',') {
            let i = choose|i: int| 0 <= i < dotted.len() && dotted[i] == ',';
            assert(is_digit(dotted[i]) || i == len);
        }
    }
    assert forall|i: int| 0 <= i < text.len() implies replaced(text, ',', '.')[i] == dotted[i] by {
        if i < len {
            assert(text[i] == units[i]);
            assert(dotted[i] == units[i]);
            assert(is_digit(text[i]));
        } else if i > len {
            assert(text[i] == cents[i - len - 1]);
            assert(dotted[i] == cents[i - len - 1]);
            assert(is_digit(text[i]));
        }
    }
    assert(replaced(text, ',', '.') =~= dotted);
}

/// An amount that was written with a dot or a comma before the hundredths
/// is read back as the same amount.
pub proof fn law_amount_round_trip(amount: u64, separator: char)
    requires
        separator == '.' || separator == ',',
    ensures
        amount_of(minor_units_text(amount as int, separator)) == Ok::<u64, ErrorKind>(amount),
{
    let n = amount as nat;
    let text = minor_units_text(amount as int, separator);
    let units = decimal(n / 100);
    let cents = pad2(n % 100);
    let len = units.len() as int;
    lemma_amount_text_shape(n, separator);
    lemma_trim_identity(text);
    assert forall|i: int| 0 <= i < text.len() implies text[i] != ' ' by {
        if i != len {
            assert(is_digit(text[i]));
        }
    }
    lemma_without_identity(text, ' ');
    let dotted = minor_units_text(amount as int, '.');
    lemma_amount_text_shape(n, '.');
    let cleaned = clean_amount(text);
    lemma_comma_to_dot(n);
    assert(cleaned == dotted);
    assert(is_digit(dotted[0]));
    assert forall|i: int| 0 <= i < len implies CharClass::Except('.').has(#[trigger] dotted[i]) by {
        assert(is_digit(dotted[i]));
    }
    lemma_run_end(dotted, CharClass::Except('.'), 0, len);
    assert forall|i: int| len + 1 <= i < dotted.len() implies CharClass::Except('.').has(
        #[trigger] dotted[i],
    ) by {
        assert(is_digit(dotted[i]));
    }
    lemma_run_end(dotted, CharClass::Except('.'), len + 1, dotted.len() as int);
    assert((n / 100) <= u64::MAX);
    lemma_parse_decimal(n / 100, u64::MAX as int);
    lemma_parse_pad2(n % 100, u64::MAX as int);
    assert(fraction_of(cents) == Ok::<int, ErrorKind>((n % 100) as int));
    assert((n / 100) * 100 + n % 100 == n);
}

/// Reading an amount, writing it and reading it again changes nothing: the
/// text that was written stands for the amount that was read.
pub proof fn law_amount_idempotent(text: Seq<char>, separator: char)
    requires
        separator == '.' || separator == ',',
        amount_of(text) is Ok,
    ensures
        amount_of(minor_units_text(amount_of(text)->Ok_0 as int, separator)) == amount_of(text),
{
    law_amount_round_trip(amount_of(text)->Ok_0, separator);
}

/// A balance that was read has the sign of its direction: credit is not
/// negative, debit is not positive.
pub proof fn law_signed_balance_sign(raw: Seq<char>, direction: Direction)
    requires
        signed_balance_of(raw, direction) is Ok,
    ensures
        direction == Direction::Credit ==> signed_balance_of(raw, direction)->Ok_0 >= 0,
        direction == Direction::Debit ==> signed_balance_of(raw, direction)->Ok_0 <= 0,
{
}

/// An MT940 balance has the sign of its mark: `C` is not negative, `D` is
/// not positive, and no other mark gives a balance.
pub proof fn law_mt940_balance_sign(b: BalanceView)
    requires
        balance_value(b) is Ok,
    ensures
        b.dc_mark == 'C' || b.dc_mark == 'D',
        b.dc_mark == 'C' ==> balance_value(b)->Ok_0 >= 0,
        b.dc_mark == 'D' ==> balance_value(b)->Ok_0 <= 0,
{
}

/// A camt.053 balance has the sign of its indicator: `CRDT` is not
/// negative, `DBIT` is not positive, and no other indicator gives a balance.
pub proof fn law_camt_balance_sign(bal: Camt053Balance)
    requires
        camt_balance_of(bal) is Ok,
    ensures
        bal.cdt_dbt_ind matches Some(ind) && (ind@ == "CRDT"@ || ind@ == "DBIT"@),
        bal.cdt_dbt_ind->0@ == "CRDT"@ ==> camt_balance_of(bal)->Ok_0 >= 0,
        bal.cdt_dbt_ind->0@ != "CRDT"@ ==> camt_balance_of(bal)->Ok_0 <= 0,
{
}

/// A balance of a CSV footer has the sign of the cell that holds it: an
/// amount in the debit cell is not positive, one in the credit cell is not
/// negative.
pub proof fn law_csv_balance_sign(row: Seq<Seq<char>>)
    requires
        footer_balance_of(row) is Ok,
    ensures
        !is_zero_cell(trim(cell(row, 7))) ==> footer_balance_of(row)->Ok_0 <= 0,
        !is_zero_cell(trim(cell(row, 11))) ==> footer_balance_of(row)->Ok_0 >= 0,
{
}

/// The amount of a transaction is never negative; its sign lies in the
/// direction alone.
pub proof fn law_amount_sign(tx: TransactionView)
    ensures
        tx.amount >= 0,
        tx.direction == Direction::Credit ==> tx.signed_amount() >= 0,
        tx.direction == Direction::Debit ==> tx.signed_amount() <= 0,
{
}

/// A date between 1980 and 2079 that was written as `YYMMDD` is read back
/// as the same date.
pub proof fn law_yymmdd_round_trip(d: (int, int, int))
    requires
        valid_ymd(d.0, d.1, d.2),
        1980 <= d.0 <= 2079,
    ensures
        yymmdd_text(d).len() == 6,
        yymmdd_date(yymmdd_text(d)) == Ok::<(int, int, int), ErrorKind>(d),
{
    let text = yymmdd_text(d);
    let yy = (d.0 % 100) as nat;
    lemma_parse_pad2(yy, u32::MAX as int);
    lemma_parse_pad2(d.1 as nat, u32::MAX as int);
    lemma_parse_pad2(d.2 as nat, u32::MAX as int);
    assert(text.subrange(0, 2) =~= pad2(yy));
    assert(text.subrange(2, 4) =~= pad2(d.1 as nat));
    assert(text.subrange(4, 6) =~= pad2(d.2 as nat));
}

/// The month and day of a booking date, written as `MMDD`, give the booking
/// date back beside a value date of the same year.
pub proof fn law_mmdd_round_trip(value_date: (int, int, int), booking_date: (int, int, int))
    requires
        valid_ymd(booking_date.0, booking_date.1, booking_date.2),
        value_date.0 == booking_date.0,
    ensures
        mmdd_text(booking_date).len() == 4,
        booking_date_of(value_date, Some(mmdd_text(booking_date))) == Ok::<
            (int, int, int),
            ErrorKind,
        >(booking_date),
{
    let text = mmdd_text(booking_date);
    lemma_parse_pad2(booking_date.1 as nat, u32::MAX as int);
    lemma_parse_pad2(booking_date.2 as nat, u32::MAX as int);
    assert(text.subrange(0, 2) =~= pad2(booking_date.1 as nat));
    assert(text.subrange(2, 4) =~= pad2(booking_date.2 as nat));
}

/// The value date that a transaction is written with.
pub open spec fn written_value_date(tx: TransactionView) -> (int, int, int) {
    match tx.value_date {
        Some(d) => d,
        None => tx.booking_date,
    }
}

/// Whether the dates of a transaction survive an MT940 message: both are
/// days of the calendar, the value date lies between 1980 and 2079, which is
/// what two digits of year can tell, and the booking date lies in the year
/// of the value date, which is all that its month and day can tell.
pub open spec fn dates_fit_mt940(tx: TransactionView) -> bool {
    let value_date = written_value_date(tx);
    &&& valid_ymd(tx.booking_date.0, tx.booking_date.1, tx.booking_date.2)
    &&& valid_ymd(value_date.0, value_date.1, value_date.2)
    &&& 1980 <= value_date.0 <= 2079
    &&& tx.booking_date.0 == value_date.0
}

/// A day is written as six digits.
pub proof fn lemma_yymmdd_digits(d: (int, int, int))
    requires
        valid_ymd(d.0, d.1, d.2),
    ensures
        yymmdd_text(d).len() == 6,
        forall|i: int| 0 <= i < 6 ==> CharClass::AsciiDigit.has(#[trigger] yymmdd_text(d)[i]),
{
    let yy = pad2((d.0 % 100) as nat);
    let mm = pad2(d.1 as nat);
    let dd = pad2(d.2 as nat);
    lemma_parse_pad2((d.0 % 100) as nat, 99);
    lemma_parse_pad2(d.1 as nat, 99);
    lemma_parse_pad2(d.2 as nat, 99);
    let text = yymmdd_text(d);
    assert(text =~= yy + mm + dd);
    assert forall|i: int| 0 <= i < 6 implies CharClass::AsciiDigit.has(#[trigger] text[i]) by {
        if i < 2 {
            assert(text[i] == yy[i]);
        } else if i < 4 {
            assert(text[i] == mm[i - 2]);
        } else {
            assert(text[i] == dd[i - 4]);
        }
    }
}

/// The entry that the written `:61:` line of a transaction is read as: the
/// two dates, the mark and the amount as they were written, and nothing
/// else.
pub proof fn lemma_entry_of_line_61(tx: TransactionView, raw_61: Seq<char>)
    requires
        dates_fit_mt940(tx),
    ensures
        entry_of(line_61(tx), raw_61) == Ok::<EntryView, ErrorKind>(
            EntryView {
                raw_61,
                value_date: yymmdd_text(written_value_date(tx)),
                entry_date: Some(mmdd_text(tx.booking_date)),
                dc_mark: mark_of(tx.direction),
                funds_code: None,
                amount: minor_units_text(tx.amount as int, ','),
                transaction_type: None,
                customer_reference: None,
                bank_reference: None,
                extra_details: None,
                info: Seq::empty(),
            },
        ),
{
    let vd = written_value_date(tx);
    let a = yymmdd_text(vd);
    let b = mmdd_text(tx.booking_date);
    let mark = mark_of(tx.direction);
    let m = minor_units_text(tx.amount as int, ',');
    let text = line_61(tx);
    law_yymmdd_round_trip(vd);
    law_mmdd_round_trip(vd, tx.booking_date);
    lemma_amount_text_shape(tx.amount as nat, ',');
    lemma_parse_pad2((vd.0 % 100) as nat, 99);
    lemma_parse_pad2(vd.1 as nat, 99);
    lemma_parse_pad2(vd.2 as nat, 99);
    lemma_parse_pad2(tx.booking_date.1 as nat, 99);
    lemma_parse_pad2(tx.booking_date.2 as nat, 99);
    let units = decimal((tx.amount as nat) / 100);
    assert(text =~= a + b + seq![mark] + m);
    assert(text.len() == 11 + m.len());
    assert(is_digit(text[0])) by {
        assert(text[0] == pad2((vd.0 % 100) as nat)[0]);
    }
    assert(is_digit(text.last())) by {
        assert(text.last() == m[m.len() - 1]);
    }
    lemma_trim_identity(text);
    assert forall|i: int| 6 <= i < 10 implies CharClass::AsciiDigit.has(#[trigger] text[i]) by {
        assert(text[i] == b[i - 6]);
        if i < 8 {
            assert(b[i - 6] == pad2(tx.booking_date.1 as nat)[i - 6]);
        } else {
            assert(b[i - 6] == pad2(tx.booking_date.2 as nat)[i - 8]);
        }
    }
    assert(text[10] == mark);
    assert(!CharClass::AsciiDigit.has(mark));
    lemma_yymmdd_digits(vd);
    assert forall|i: int| 0 <= i < 6 implies CharClass::AsciiDigit.has(#[trigger] text[i]) by {
        assert(text[i] == a[i]);
    }
    lemma_run_reaches(text, CharClass::AsciiDigit, 0, 6);
    lemma_run_end(text, CharClass::AsciiDigit, 6, 10);
    assert(all_in(text, CharClass::AsciiDigit, 6, 4));
    let rest = text.skip(10);
    assert(rest =~= seq![mark] + m);
    assert(is_digit(rest[1])) by {
        assert(rest[1] == m[0]);
    }
    assert(!is_ascii_alphabetic(rest[1]));
    assert forall|i: int| 1 <= i < rest.len() implies CharClass::Amount.has(#[trigger] rest[i]) by {
        assert(rest[i] == m[i - 1]);
        if i - 1 != units.len() {
            assert(is_digit(m[i - 1]));
        }
    }
    lemma_run_end(rest, CharClass::Amount, 1, rest.len() as int);
    assert(rest.subrange(1, rest.len() as int) =~= m);
    let tail = rest.skip(rest.len() as int);
    assert(tail =~= Seq::<char>::empty());
    assert(!all_in(tail, CharClass::AsciiAlphabetic, 0, 4));
    reveal_strlit("//");
    assert(find(tail, "//"@) is None);
    assert(references_of(tail) == (None::<Seq<char>>, None::<Seq<char>>, None::<Seq<char>>));
    assert(text.take(6) =~= a);
    assert(text.subrange(6, 10) =~= b);
}

/// A transaction that was written as a `:61:` line is read back with its
/// booking date, its value date (the booking date where it had none), its
/// amount and its direction, whatever free text the entry gathers.
pub proof fn law_entry_round_trip(tx: TransactionView, raw_61: Seq<char>, info: Seq<Seq<char>>)
    requires
        dates_fit_mt940(tx),
    ensures
        entry_of(line_61(tx), raw_61) is Ok,
        ({
            let entry = EntryView { info, ..entry_of(line_61(tx), raw_61)->Ok_0 };
            &&& transaction_of(entry) matches Ok(read)
            &&& read.booking_date == tx.booking_date
            &&& read.value_date == Some(written_value_date(tx))
            &&& read.amount == tx.amount
            &&& read.direction == tx.direction
        }),
{
    lemma_entry_of_line_61(tx, raw_61);
    law_amount_round_trip(tx.amount, ',');
    law_yymmdd_round_trip(written_value_date(tx));
    law_mmdd_round_trip(written_value_date(tx), tx.booking_date);
}

/// A balance that was written into a balance line is read back with its
/// value, its date and its currency code, if its magnitude fits 64 bits,
/// its date lies between 1980 and 2079 and the code has three characters.
pub proof fn law_balance_round_trip(balance: Balance, date: (int, int, int), code: Seq<char>)
    requires
        valid_ymd(date.0, date.1, date.2),
        1980 <= date.0 <= 2079,
        -(u64::MAX as int) <= balance <= u64::MAX as int,
        code.len() == 3,
    ensures
        balance_of(balance_text(balance, date, code)) matches Ok(b) && balance_value(b)
            == Ok::<Balance, ErrorKind>(balance) && yymmdd_date(b.date) == Ok::<
            (int, int, int),
            ErrorKind,
        >(date) && b.currency == code,
{
    let text = balance_text(balance, date, code);
    let magnitude: nat = if balance < 0 {
        (-balance) as nat
    } else {
        balance as nat
    };
    let m = minor_units_text(balance as int, ',');
    law_yymmdd_round_trip(date);
    lemma_amount_text_shape(magnitude, ',');
    assert(m == minor_units_text(magnitude as int, ','));
    assert(text.len() == 10 + m.len());
    assert(is_digit(text.last())) by {
        assert(text.last() == m[m.len() - 1]);
    }
    lemma_trim_identity(text);
    lemma_yymmdd_digits(date);
    assert forall|i: int| 1 <= i < 7 implies CharClass::AsciiDigit.has(#[trigger] text[i]) by {
        assert(text[i] == yymmdd_text(date)[i - 1]);
    }
    lemma_run_reaches(text, CharClass::AsciiDigit, 1, 7);
    assert(text.subrange(1, 7) =~= yymmdd_text(date));
    assert(text.subrange(7, 10) =~= code);
    assert(text.skip(10) =~= m);
    assert(is_digit(m[0]));
    lemma_trim_identity(m);
    law_amount_round_trip(magnitude as u64, ',');
}

} // verus!
