//! The cells of a CSV export: balances of the footer, counterparty blocks,
//! amount columns, column search and written-out dates.

use crate::date::{valid_ymd, Date};
use crate::error::{same_outcome, with_detail, ErrorKind, ParseError};
use crate::model::{date_outcome, str_text, text_of, Balance, Direction};
use crate::number::{parse_i32_chars, parse_signed, parse_u32_chars, parse_unsigned};
use crate::text::{
    blank, chars_of, contains, equal, equals_str, find_in, has_prefix, is_blank, lemma_blank_trim,
    lines, lowercase, lowercase_of, replace_char, replaced, split_lines, split_tokens, starts_with,
    string_of, string_views, strip_end, strip_end_of, tokens, trim, trim_of, views, CharClass,
};
use crate::utils::{amount_of, parse_amount_chars};
use vstd::prelude::*;

verus! {

/// The cell of a row at a column, empty where the row is shorter.
pub open spec fn cell(row: Seq<Seq<char>>, col: int) -> Seq<char> {
    if 0 <= col < row.len() {
        row[col]
    } else {
        Seq::empty()
    }
}

/// The trimmed cell of a row at a column, empty where the row is shorter.
pub fn trimmed_cell(row: &[String], col: usize) -> (r: Vec<char>)
    ensures
        r@ == trim(cell(string_views(row@), col as int)),
{
    if col < row.len() {
        let chars = chars_of(row[col].as_str());
        vstd::slice::slice_to_vec(trim_of(chars.as_slice()))
    } else {
        let empty: Vec<char> = Vec::new();
        assert(trim(Seq::<char>::empty()) =~= Seq::<char>::empty());
        empty
    }
}

/// Whether a balance cell counts as empty: nothing, or a zero.
pub open spec fn is_zero_cell(s: Seq<char>) -> bool {
    s.len() == 0 || s == "0"@ || s == "0,00"@ || s == "0.00"@
}

/// The balance of a footer row: the debit cell stands in column 7, the
/// credit cell in column 11. Debit alone is a negative balance, credit alone
/// a positive one; neither is zero; both together are malformed.
pub open spec fn footer_balance_of(row: Seq<Seq<char>>) -> Result<Balance, ErrorKind> {
    let debit = trim(cell(row, 7));
    let credit = trim(cell(row, 11));
    if !is_zero_cell(debit) && !is_zero_cell(credit) {
        Err(ErrorKind::Header)
    } else if !is_zero_cell(debit) {
        match amount_of(replaced(debit, ',', '.')) {
            Ok(a) => Ok((-(a as int)) as i128),
            Err(k) => Err(k),
        }
    } else if !is_zero_cell(credit) {
        match amount_of(replaced(credit, ',', '.')) {
            Ok(a) => Ok(a as i128),
            Err(k) => Err(k),
        }
    } else {
        Ok(0)
    }
}

fn zero_cell(s: &[char]) -> (r: bool)
    ensures
        r == is_zero_cell(s@),
{
    s.len() == 0 || equals_str(s, "0") || equals_str(s, "0,00") || equals_str(s, "0.00")
}

/// Reads the balance of a footer row.
pub fn parse_footer_balance(row: &[String]) -> (r: Result<Balance, ParseError>)
    ensures
        same_outcome(r, footer_balance_of(string_views(row@))),
{
    let debit = trimmed_cell(row, 7);
    let credit = trimmed_cell(row, 11);
    let has_debit = !zero_cell(debit.as_slice());
    let has_credit = !zero_cell(credit.as_slice());
    if has_debit && has_credit {
        Err(
            ParseError::Header(
                "footer balance row has both debit and credit amounts".to_string(),
            ),
        )
    } else if has_debit {
        let normalized = replace_char(debit.as_slice(), ',', '.');
        match parse_amount_chars(normalized.as_slice()) {
            Ok(a) => Ok(-(a as i128)),
            Err(e) => Err(e),
        }
    } else if has_credit {
        let normalized = replace_char(credit.as_slice(), ',', '.');
        match parse_amount_chars(normalized.as_slice()) {
            Ok(a) => Ok(a as i128),
            Err(e) => Err(e),
        }
    } else {
        Ok(0)
    }
}

/// The first `n` of the given lines, each trimmed, without those that are
/// then empty.
pub open spec fn filled_lines(all: Seq<Seq<char>>, n: int) -> Seq<Seq<char>>
    decreases n,
{
    if n <= 0 {
        Seq::empty()
    } else if is_blank(all[n - 1]) {
        filled_lines(all, n - 1)
    } else {
        filled_lines(all, n - 1).push(trim(all[n - 1]))
    }
}

/// What stands in a party block in the place of a name that is not known.
pub open spec fn no_name() -> Seq<char> {
    seq!['-']
}

/// Account and name of a party block: its first and its third line among
/// those that say anything. A third line that only marks the place of a
/// name is no name.
pub open spec fn account_and_name_of(block: Seq<char>) -> (Option<Seq<char>>, Option<Seq<char>>) {
    let filled = filled_lines(lines(block), lines(block).len() as int);
    (
        if filled.len() > 0 {
            Some(filled[0])
        } else {
            None
        },
        if filled.len() > 2 && filled[2] != no_name() {
            Some(filled[2])
        } else {
            None
        },
    )
}

/// Reads account and name out of a party block.
pub fn extract_account_and_name(block: &str) -> (r: (Option<String>, Option<String>))
    ensures
        (text_of(r.0), text_of(r.1)) == account_and_name_of(block@),
{
    let chars = chars_of(block);
    let all = split_lines(chars.as_slice());
    let mut filled: Vec<String> = Vec::new();
    let mut i: usize = 0;
    assert(string_views(filled@) =~= Seq::<Seq<char>>::empty());
    while i < all.len()
        invariant
            i <= all.len(),
            views(all@) == lines(block@),
            string_views(filled@) == filled_lines(lines(block@), i as int),
        decreases all.len() - i,
    {
        assert(views(all@)[i as int] == all@[i as int]@);
        let t = trim_of(all[i].as_slice());
        proof {
            lemma_blank_trim(all@[i as int]@);
        }
        if t.len() > 0 {
            let ghost before = filled@;
            filled.push(string_of(t));
            assert(string_views(filled@) =~= string_views(before).push(t@));
        }
        i += 1;
    }
    let account = if filled.len() > 0 {
        Some(filled[0].clone())
    } else {
        None
    };
    assert(filled.len() > 0 ==> string_views(filled@)[0] == filled@[0]@);
    assert(filled.len() > 2 ==> string_views(filled@)[2] == filled@[2]@);
    proof {
        reveal_strlit("-");
        assert("-"@ =~= no_name());
    }
    let name = if filled.len() > 2 && !equals_str(chars_of(filled[2].as_str()).as_slice(), "-") {
        Some(filled[2].clone())
    } else {
        None
    };
    (account, name)
}

/// The counterparty of a row: the party of the credit block where the
/// debit block names our account, the party of the debit block where the
/// credit block names it, and nobody otherwise.
pub open spec fn counterparty_account_of(
    debit_block: Seq<char>,
    credit_block: Seq<char>,
    our_account: Seq<char>,
) -> (Option<Seq<char>>, Option<Seq<char>>) {
    let debit = account_and_name_of(debit_block);
    let credit = account_and_name_of(credit_block);
    if debit.0 == Some(our_account) {
        credit
    } else if credit.0 == Some(our_account) {
        debit
    } else {
        (None, None)
    }
}

fn names(account: &Option<String>, our_account: &[char]) -> (r: bool)
    ensures
        r == (crate::model::text_of(*account) == Some(our_account@)),
{
    match account {
        Some(a) => {
            let chars = chars_of(a.as_str());
            equal(chars.as_slice(), our_account)
        },
        None => false,
    }
}

/// Finds the counterparty of a row from its two party blocks.
pub fn extract_counterparty_account(debit_block: &str, credit_block: &str, our_account: &str) -> (r:
    (Option<String>, Option<String>))
    ensures
        (text_of(r.0), text_of(r.1)) == counterparty_account_of(
            debit_block@,
            credit_block@,
            our_account@,
        ),
{
    let (debit_acc, debit_name) = extract_account_and_name(debit_block);
    let (credit_acc, credit_name) = extract_account_and_name(credit_block);
    let ours = chars_of(our_account);
    if names(&debit_acc, ours.as_slice()) {
        return (credit_acc, credit_name);
    }
    if names(&credit_acc, ours.as_slice()) {
        return (debit_acc, debit_name);
    }
    (None, None)
}

/// Whether an amount cell is filled: present and not blank.
pub open spec fn is_filled(cell: Option<Seq<char>>) -> bool {
    match cell {
        Some(s) => !is_blank(s),
        None => false,
    }
}

/// Amount and direction of a row: exactly one of the debit and the credit
/// amount must be filled, and it gives the direction.
pub open spec fn amount_and_direction_of(debit: Option<Seq<char>>, credit: Option<Seq<char>>)
    -> Result<(u64, Direction), ErrorKind> {
    if is_filled(debit) && !is_filled(credit) {
        match amount_of(debit->0) {
            Ok(a) => Ok((a, Direction::Debit)),
            Err(k) => Err(k),
        }
    } else if is_filled(credit) && !is_filled(debit) {
        match amount_of(credit->0) {
            Ok(a) => Ok((a, Direction::Credit)),
            Err(k) => Err(k),
        }
    } else {
        Err(ErrorKind::AmountSideConflict)
    }
}

fn filled(cell: Option<&str>) -> (r: Option<Vec<char>>)
    ensures
        r is Some == is_filled(str_text(cell)),
        r matches Some(v) ==> str_text(cell) == Some(v@),
{
    match cell {
        Some(s) => {
            let chars = chars_of(s);
            if blank(chars.as_slice()) {
                None
            } else {
                Some(chars)
            }
        },
        None => None,
    }
}

/// Reads amount and direction from the two amount cells of a row.
pub fn parse_amount_and_direction(debit: Option<&str>, credit: Option<&str>) -> (r: Result<
    (u64, Direction),
    ParseError,
>)
    ensures
        same_outcome(r, amount_and_direction_of(str_text(debit), str_text(credit))),
{
    match (filled(debit), filled(credit)) {
        (Some(d), None) => match parse_amount_chars(d.as_slice()) {
            Ok(a) => Ok((a, Direction::Debit)),
            Err(e) => Err(e),
        },
        (None, Some(c)) => match parse_amount_chars(c.as_slice()) {
            Ok(a) => Ok((a, Direction::Credit)),
            Err(e) => Err(e),
        },
        _ => Err(ParseError::AmountSideConflict),
    }
}

/// Whether a cell marks the footer: it is `б/с`, or begins with one of the
/// four labels of the footer rows.
pub open spec fn is_footer_marker(field: Seq<char>) -> bool {
    let f = trim(field);
    f == "б/с"@ || starts_with(f, "Количество операций"@) || starts_with(f, "Входящий остаток"@)
        || starts_with(f, "Исходящий остаток"@) || starts_with(f, "Итого оборотов"@)
}

/// The index of the first cell at or after `from` that marks the footer,
/// or the length of the row.
pub open spec fn first_marker(row: Seq<Seq<char>>, from: int) -> int
    decreases row.len() - from,
{
    if from < 0 || from >= row.len() || is_footer_marker(row[from]) {
        from
    } else {
        first_marker(row, from + 1)
    }
}

/// Whether a row belongs to the footer: one of its cells marks it.
pub open spec fn is_footer(row: Seq<Seq<char>>) -> bool {
    0 <= first_marker(row, 0) < row.len()
}

fn footer_marker(field: &str) -> (r: bool)
    ensures
        r == is_footer_marker(field@),
{
    let chars = chars_of(field);
    let f = trim_of(chars.as_slice());
    equals_str(f, "б/с") || has_prefix(f, chars_of("Количество операций").as_slice())
        || has_prefix(f, chars_of("Входящий остаток").as_slice()) || has_prefix(
        f,
        chars_of("Исходящий остаток").as_slice(),
    ) || has_prefix(f, chars_of("Итого оборотов").as_slice())
}

/// Tells whether a row belongs to the footer.
pub fn is_footer_row(row: &[String]) -> (r: bool)
    ensures
        r == is_footer(string_views(row@)),
{
    let ghost cells = string_views(row@);
    let mut i: usize = 0;
    while i < row.len()
        invariant
            i <= row.len(),
            cells == string_views(row@),
            first_marker(cells, 0) == first_marker(cells, i as int),
        decreases row.len() - i,
    {
        assert(cells[i as int] == row@[i as int]@);
        if footer_marker(row[i].as_str()) {
            return true;
        }
        i += 1;
    }
    false
}

/// The index of the first cell at or after `from` that, trimmed, is the
/// label, or the length of the row.
pub open spec fn first_exact(row: Seq<Seq<char>>, label: Seq<char>, from: int) -> int
    decreases row.len() - from,
{
    if from < 0 || from >= row.len() || trim(row[from]) == label {
        from
    } else {
        first_exact(row, label, from + 1)
    }
}

/// The index of the first cell at or after `from` that holds the label, or
/// the length of the row.
pub open spec fn first_holding(row: Seq<Seq<char>>, label: Seq<char>, from: int) -> int
    decreases row.len() - from,
{
    if from < 0 || from >= row.len() || contains(row[from], label) {
        from
    } else {
        first_holding(row, label, from + 1)
    }
}

/// The column of a label: the first cell that is the label; failing that,
/// the first cell that holds it.
pub open spec fn column_of(row: Seq<Seq<char>>, label: Seq<char>) -> Result<usize, ErrorKind> {
    let exact = first_exact(row, label, 0);
    let holding = first_holding(row, label, 0);
    if 0 <= exact < row.len() {
        Ok(exact as usize)
    } else if 0 <= holding < row.len() {
        Ok(holding as usize)
    } else {
        Err(ErrorKind::Header)
    }
}

/// Whether some cell of the row holds the label.
pub fn row_holds(row: &[String], label: &str) -> (r: Option<usize>)
    ensures
        match r {
            Some(i) => first_holding(string_views(row@), label@, 0) == i && i < row.len(),
            None => first_holding(string_views(row@), label@, 0) >= row.len(),
        },
{
    let ghost cells = string_views(row@);
    let needle = chars_of(label);
    let mut i: usize = 0;
    while i < row.len()
        invariant
            i <= row.len(),
            cells == string_views(row@),
            needle@ == label@,
            first_holding(cells, label@, 0) == first_holding(cells, label@, i as int),
        decreases row.len() - i,
    {
        assert(cells[i as int] == row@[i as int]@);
        let chars = chars_of(row[i].as_str());
        if find_in(chars.as_slice(), needle.as_slice()).is_some() {
            return Some(i);
        }
        i += 1;
    }
    None
}

/// Finds the column whose header is the label or holds it.
pub fn find_col(row: &[String], needle: &str) -> (r: Result<usize, ParseError>)
    ensures
        same_outcome(r, column_of(string_views(row@), needle@)),
{
    let ghost cells = string_views(row@);
    let label = chars_of(needle);
    let mut i: usize = 0;
    while i < row.len()
        invariant
            i <= row.len(),
            cells == string_views(row@),
            label@ == needle@,
            first_exact(cells, needle@, 0) == first_exact(cells, needle@, i as int),
        decreases row.len() - i,
    {
        assert(cells[i as int] == row@[i as int]@);
        let chars = chars_of(row[i].as_str());
        if equal(trim_of(chars.as_slice()), label.as_slice()) {
            return Ok(i);
        }
        i += 1;
    }
    match row_holds(row, needle) {
        Some(i) => Ok(i),
        None => {
            let mut text = chars_of("column with header equal to or containing '");
            crate::text::push_str(&mut text, needle);
            crate::text::push_str(&mut text, "' not found");
            Err(ParseError::Header(string_of(text.as_slice())))
        },
    }
}

/// The month that a lowercased genitive month name stands for.
pub open spec fn month_named(lower: Seq<char>) -> Option<int> {
    if lower == "января"@ {
        Some(1)
    } else if lower == "февраля"@ {
        Some(2)
    } else if lower == "марта"@ {
        Some(3)
    } else if lower == "апреля"@ {
        Some(4)
    } else if lower == "мая"@ {
        Some(5)
    } else if lower == "июня"@ {
        Some(6)
    } else if lower == "июля"@ {
        Some(7)
    } else if lower == "августа"@ {
        Some(8)
    } else if lower == "сентября"@ {
        Some(9)
    } else if lower == "октября"@ {
        Some(10)
    } else if lower == "ноября"@ {
        Some(11)
    } else if lower == "декабря"@ {
        Some(12)
    } else {
        None
    }
}

/// Looks a lowercased month name up.
pub fn month_from_name(lower: &str) -> (r: Option<u32>)
    ensures
        match r {
            Some(m) => month_named(lower@) == Some(m as int) && 1 <= m <= 12,
            None => month_named(lower@) is None,
        },
{
    let chars = chars_of(lower);
    let l = chars.as_slice();
    if equals_str(l, "января") {
        Some(1)
    } else if equals_str(l, "февраля") {
        Some(2)
    } else if equals_str(l, "марта") {
        Some(3)
    } else if equals_str(l, "апреля") {
        Some(4)
    } else if equals_str(l, "мая") {
        Some(5)
    } else if equals_str(l, "июня") {
        Some(6)
    } else if equals_str(l, "июля") {
        Some(7)
    } else if equals_str(l, "августа") {
        Some(8)
    } else if equals_str(l, "сентября") {
        Some(9)
    } else if equals_str(l, "октября") {
        Some(10)
    } else if equals_str(l, "ноября") {
        Some(11)
    } else if equals_str(l, "декабря") {
        Some(12)
    } else {
        None
    }
}

/// The month that a word names: the month whose genitive name it is as it
/// stands, or failing that, the month whose name its lowercase form is.
pub open spec fn month_of_word(word: Seq<char>) -> Option<int> {
    match month_named(word) {
        Some(m) => Some(m),
        None => month_named(lowercase_of(word)),
    }
}

/// The words of a written-out date: the text without the white space, dots
/// and `г` that trail it, split at white space.
pub open spec fn date_words(raw: Seq<char>) -> Seq<Seq<char>> {
    tokens(trim(strip_end(trim(raw), CharClass::DateTail)))
}

/// The date that a written-out date stands for: day, month name in any
/// case, year, and whatever follows. Day and year are read before the month
/// is looked up.
pub open spec fn rus_date_of(raw: Seq<char>) -> Result<(int, int, int), ErrorKind> {
    let words = date_words(raw);
    if words.len() < 3 {
        Err(ErrorKind::Header)
    } else {
        match (
            parse_unsigned(words[0], u32::MAX as int),
            parse_signed(words[2], i32::MAX as int),
            month_of_word(words[1]),
        ) {
            (Ok(day), Ok(year), Some(month)) => if valid_ymd(year, month, day) {
                Ok((year, month, day))
            } else {
                Err(ErrorKind::Header)
            },
            _ => Err(ErrorKind::Header),
        }
    }
}

/// Reads a date written as day, month name and year.
pub fn parse_rus_date(raw: &str) -> (r: Result<Date, ParseError>)
    ensures
        date_outcome(r, rus_date_of(raw@)),
{
    let chars = chars_of(raw);
    let whole = chars.as_slice();
    let s = trim_of(strip_end_of(trim_of(whole), CharClass::DateTail));
    let parts = split_tokens(s);
    if parts.len() < 3 {
        return Err(ParseError::Header(with_detail("invalid date from string ", whole)));
    }
    assert(views(parts@)[0] == parts@[0]@);
    assert(views(parts@)[1] == parts@[1]@);
    assert(views(parts@)[2] == parts@[2]@);
    let day = match parse_u32_chars(parts[0].as_slice()) {
        Ok(v) => v,
        Err(_) => {
            return Err(
                ParseError::Header(with_detail("invalid day part of date str ", whole)),
            );
        },
    };
    let year = match parse_i32_chars(parts[2].as_slice()) {
        Ok(v) => v,
        Err(_) => {
            return Err(
                ParseError::Header(with_detail("invalid year part of date str ", whole)),
            );
        },
    };
    let word = string_of(parts[1].as_slice());
    let month = match month_from_name(word.as_str()) {
        Some(m) => m,
        None => {
            let lower = lowercase(word.as_str());
            match month_from_name(lower.as_str()) {
                Some(m) => m,
                None => {
                    return Err(ParseError::Header(with_detail("unknown month in date: ", whole)));
                },
            }
        },
    };
    match Date::from_ymd_opt(year, month, day) {
        Some(d) => Ok(d),
        None => Err(ParseError::Header(with_detail("invalid date: ", whole))),
    }
}

} // verus!
