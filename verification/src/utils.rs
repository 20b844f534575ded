//! Amounts and currencies as the source formats write them.

use crate::error::{same_outcome, with_detail, ErrorKind, ParseError};
use crate::model::{Balance, Currency, CurrencyView, Direction};
use crate::number::{
    char_to_digit, digit_value, is_digit, parse_digits, parse_u64_digits, IntErrorKind,
};
use crate::text::{
    chars_of, equals_str, has_char, lowercase, lowercase_of, remove_char, replace_char, replaced,
    run_end, scan_run, string_of, trim, trim_of, without, CharClass,
};
use vstd::prelude::*;

verus! {

/// The currency that a lowercased name stands for; a name outside the table
/// is kept as it was written.
pub open spec fn currency_named(lower: Seq<char>, written: Seq<char>) -> CurrencyView {
    if lower == "российский рубль"@ || lower == "рубль"@ || lower == "руб."@ || lower == "rub"@
        || lower == "rur"@ {
        CurrencyView::RUB
    } else if lower == "американский доллар"@ || lower == "доллар сша"@ || lower == "usd"@ {
        CurrencyView::USD
    } else if lower == "евро"@ || lower == "eur"@ {
        CurrencyView::EUR
    } else if lower == "китайский юань"@ || lower == "юань"@ || lower == "cny"@ {
        CurrencyView::CNY
    } else {
        CurrencyView::Other(written)
    }
}

/// Looks a lowercased currency name up in the table of known names.
pub fn currency_from_name(lower: &str, written: String) -> (r: Currency)
    ensures
        r@ == currency_named(lower@, written@),
{
    let l = chars_of(lower);
    let l = l.as_slice();
    if equals_str(l, "российский рубль") || equals_str(l, "рубль") || equals_str(l, "руб.")
        || equals_str(l, "rub") || equals_str(l, "rur") {
        Currency::RUB
    } else if equals_str(l, "американский доллар") || equals_str(l, "доллар сша") || equals_str(
        l,
        "usd",
    ) {
        Currency::USD
    } else if equals_str(l, "евро") || equals_str(l, "eur") {
        Currency::EUR
    } else if equals_str(l, "китайский юань") || equals_str(l, "юань") || equals_str(l, "cny") {
        Currency::CNY
    } else {
        Currency::Other(written)
    }
}

/// The currency that a text names in the way in which this library writes
/// currencies: by its code in capitals, or by the name under which an export
/// lists it.
pub open spec fn currency_written(text: Seq<char>) -> Option<CurrencyView> {
    if text == "RUB"@ || text == "Российский рубль"@ {
        Some(CurrencyView::RUB)
    } else if text == "USD"@ || text == "Доллар США"@ {
        Some(CurrencyView::USD)
    } else if text == "EUR"@ || text == "Евро"@ {
        Some(CurrencyView::EUR)
    } else if text == "CNY"@ || text == "Китайский юань"@ {
        Some(CurrencyView::CNY)
    } else {
        None
    }
}

/// The currency that a text stands for: without the white space around it,
/// the currency that it names as this library writes it; failing that, the
/// currency that its lowercase form names.
pub open spec fn currency_of_text(raw: Seq<char>) -> CurrencyView {
    let text = trim(raw);
    match currency_written(text) {
        Some(c) => c,
        None => currency_named(lowercase_of(text), text),
    }
}

/// Looks a currency up among the forms in which this library writes one.
pub fn written_currency(text: &[char]) -> (r: Option<Currency>)
    ensures
        match r {
            Some(c) => currency_written(text@) == Some(c@),
            None => currency_written(text@) is None,
        },
{
    if equals_str(text, "RUB") || equals_str(text, "Российский рубль") {
        Some(Currency::RUB)
    } else if equals_str(text, "USD") || equals_str(text, "Доллар США") {
        Some(Currency::USD)
    } else if equals_str(text, "EUR") || equals_str(text, "Евро") {
        Some(Currency::EUR)
    } else if equals_str(text, "CNY") || equals_str(text, "Китайский юань") {
        Some(Currency::CNY)
    } else {
        None
    }
}

/// Reads a currency from its name or code, whatever the case of its
/// letters and the white space around it.
pub fn parse_currency(raw: &str) -> (r: Currency)
    ensures
        r@ == currency_of_text(raw@),
{
    let chars = chars_of(raw);
    let trimmed = trim_of(chars.as_slice());
    if let Some(currency) = written_currency(trimmed) {
        return currency;
    }
    let written = string_of(trimmed);
    let lower = lowercase(written.as_str());
    currency_from_name(lower.as_str(), written)
}

/// An amount text without the characters that only group its digits: the
/// white space around it, its spaces, and its commas where it also holds a
/// dot. A comma in a text without a dot is the decimal point.
pub open spec fn clean_amount(raw: Seq<char>) -> Seq<char> {
    let base = without(trim(raw), ' ');
    if raw.contains(',') {
        if raw.contains('.') {
            without(base, ',')
        } else {
            replaced(base, ',', '.')
        }
    } else {
        base
    }
}

/// The hundredths that the digits after the decimal point stand for.
pub open spec fn fraction_of(dec: Seq<char>) -> Result<int, ErrorKind> {
    if dec.len() == 0 {
        Ok(0)
    } else if dec.len() == 1 {
        if is_digit(dec[0]) {
            Ok(digit_value(dec[0]) * 10)
        } else {
            Err(ErrorKind::InvalidAmount)
        }
    } else if dec.len() == 2 {
        match parse_digits(dec, u64::MAX as int) {
            Ok(v) => Ok(v),
            Err(_) => Err(ErrorKind::Int),
        }
    } else {
        Err(ErrorKind::InvalidAmount)
    }
}

/// The minor units that a decimal amount text stands for.
///
/// An empty text, a leading minus sign, a second decimal point and more
/// than two digits after the point are invalid amounts. Units, or two
/// places after the point, that hold anything but digits (a `+` too), and a
/// value beyond 64 bits, are integer errors.
pub open spec fn amount_of(raw: Seq<char>) -> Result<u64, ErrorKind> {
    let cleaned = clean_amount(raw);
    let dot = run_end(cleaned, CharClass::Except('.'), 0);
    if cleaned.len() == 0 {
        Err(ErrorKind::InvalidAmount)
    } else if cleaned[0] == '-' {
        Err(ErrorKind::InvalidAmount)
    } else if dot < cleaned.len() && run_end(cleaned, CharClass::Except('.'), dot + 1)
        < cleaned.len() {
        Err(ErrorKind::InvalidAmount)
    } else {
        match parse_digits(cleaned.take(dot), u64::MAX as int) {
            Err(_) => Err(ErrorKind::Int),
            Ok(units) => match fraction_of(
                if dot < cleaned.len() {
                    cleaned.skip(dot + 1)
                } else {
                    Seq::empty()
                },
            ) {
                Err(k) => Err(k),
                Ok(hundredths) => if units * 100 + hundredths > u64::MAX {
                    Err(ErrorKind::Int)
                } else {
                    Ok((units * 100 + hundredths) as u64)
                },
            },
        }
    }
}

/// Reads a decimal amount into minor units.
pub fn parse_amount(raw: &str) -> (r: Result<u64, ParseError>)
    ensures
        same_outcome(r, amount_of(raw@)),
{
    let chars = chars_of(raw);
    parse_amount_chars(chars.as_slice())
}

/// Reads a decimal amount into minor units.
pub fn parse_amount_chars(all: &[char]) -> (r: Result<u64, ParseError>)
    ensures
        same_outcome(r, amount_of(all@)),
{
    let mut cleaned = remove_char(trim_of(all), ' ');
    if has_char(all, ',') {
        if has_char(all, '.') {
            cleaned = remove_char(cleaned.as_slice(), ',');
        } else {
            cleaned = replace_char(cleaned.as_slice(), ',', '.');
        }
    }
    let c = cleaned.as_slice();
    assert(c@ == clean_amount(all@));
    if c.len() == 0 {
        return Err(ParseError::InvalidAmount("empty amount".to_string()));
    }
    if c[0] == '-' {
        return Err(ParseError::InvalidAmount(with_detail("negative amount: ", c)));
    }
    let dot = scan_run(c, CharClass::Except('.'), 0);
    if dot < c.len() {
        let second = scan_run(c, CharClass::Except('.'), dot + 1);
        if second < c.len() {
            return Err(
                ParseError::InvalidAmount(with_detail("too many dots in amount: ", c)),
            );
        }
    }
    let int_part = vstd::slice::slice_subrange(c, 0, dot);
    let dec_part = if dot < c.len() {
        vstd::slice::slice_subrange(c, dot + 1, c.len())
    } else {
        vstd::slice::slice_subrange(c, dot, c.len())
    };
    assert(dec_part@ =~= if dot < c@.len() {
        c@.skip(dot + 1)
    } else {
        Seq::empty()
    });
    let units = match parse_u64_digits(int_part) {
        Ok(v) => v,
        Err(k) => {
            return Err(ParseError::Int(k));
        },
    };
    let hundredths: u64 = if dec_part.len() == 0 {
        0
    } else if dec_part.len() == 1 {
        let d = dec_part[0];
        if '0' <= d && d <= '9' {
            (char_to_digit(d) as u64) * 10
        } else {
            return Err(
                ParseError::InvalidAmount(with_detail("invalid fractional part: ", c)),
            );
        }
    } else if dec_part.len() == 2 {
        match parse_u64_digits(dec_part) {
            Ok(v) => v,
            Err(k) => {
                return Err(ParseError::Int(k));
            },
        }
    } else {
        return Err(
            ParseError::InvalidAmount(
                with_detail("too many fractional digits in amount: ", c),
            ),
        );
    };
    if units > (u64::MAX - hundredths) / 100 {
        return Err(ParseError::Int(IntErrorKind::PosOverflow));
    }
    Ok(units * 100 + hundredths)
}

/// The balance that an amount text stands for in the given direction.
pub open spec fn signed_balance_of(raw: Seq<char>, direction: Direction) -> Result<
    Balance,
    ErrorKind,
> {
    match amount_of(raw) {
        Ok(a) => Ok(direction.signed(a as int) as i128),
        Err(k) => Err(k),
    }
}

/// Reads a decimal amount and gives it the sign of its direction: credit
/// is positive, debit negative.
pub fn parse_signed_balance(raw: &str, direction: Direction) -> (r: Result<Balance, ParseError>)
    ensures
        same_outcome(r, signed_balance_of(raw@, direction)),
        r matches Ok(b) ==> (direction == Direction::Credit ==> b >= 0) && (direction
            == Direction::Debit ==> b <= 0),
{
    match parse_amount(raw) {
        Ok(a) => Ok(
            match direction {
                Direction::Credit => a as i128,
                Direction::Debit => -(a as i128),
            },
        ),
        Err(e) => Err(e),
    }
}

} // verus!
