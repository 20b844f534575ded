//! The small grammars inside MT940 tag values, and the search for a
//! counterparty in an entry's free text.

use crate::date::{valid_ymd, Date};
use crate::error::{quoted, with_detail, ErrorKind, ParseError};
use crate::number::{has_digit, holds_digit, parse_digits, parse_u32_digits};
use crate::text::{
    char_is_ascii_alphabetic, chars_of, find, find_in, is_ascii_alphabetic, is_ascii_digit, is_word,
    join, join_texts, run_end, scan_run, split_tokens, string_of, string_views, strip, strip_of,
    strip_range, tokens, trim, trim_of, trim_start, uppercase, uppercase_of, views, CharClass,
};
use crate::model::{date_outcome, str_text, text_of};
use vstd::prelude::*;
use vstd::string::{StrSliceExecFns, StringExecFns};

verus! {

/// Tag and value of a tag line: the line begins, after white space, with a
/// colon; the tag runs to the next colon and is trimmed; the value is all
/// that follows that colon, untouched.
pub open spec fn tag_line_of(line: Seq<char>) -> Result<(Seq<char>, Seq<char>), ErrorKind> {
    let l = trim_start(line);
    if l.len() == 0 || l[0] != ':' {
        Err(ErrorKind::Mt940Tag)
    } else {
        let end = run_end(l, CharClass::Except(':'), 1);
        if end >= l.len() {
            Err(ErrorKind::Mt940Tag)
        } else {
            Ok((trim(l.subrange(1, end)), l.skip(end + 1)))
        }
    }
}

/// Splits a tag line into its tag and its value.
pub fn split_tag_line<'a>(line: &'a str) -> (r: Result<(&'a str, &'a str), ParseError>)
    ensures
        match r {
            Ok((tag, value)) => tag_line_of(line@) == Ok::<(Seq<char>, Seq<char>), ErrorKind>(
                (tag@, value@),
            ),
            Err(e) => tag_line_of(line@) == Err::<(Seq<char>, Seq<char>), ErrorKind>(e.kind()),
        },
{
    let chars = chars_of(line);
    let s = chars.as_slice();
    let a = scan_run(s, CharClass::Whitespace, 0);
    let ghost l = trim_start(line@);
    if a >= s.len() || s[a] != ':' {
        return Err(ParseError::Mt940Tag("tag line must start with ':'".to_string()));
    }
    let rest = vstd::slice::slice_subrange(s, a, s.len());
    assert(rest@ == l);
    let end = scan_run(rest, CharClass::Except(':'), 1);
    if end >= rest.len() {
        return Err(
            ParseError::Mt940Tag(with_detail("bad tag line (unclosed tag): ", rest)),
        );
    }
    let (from, to) = strip_range(rest, CharClass::Whitespace, 1, end);
    let tag = line.substring_char(a + from, a + to);
    let value = line.substring_char(a + end + 1, s.len());
    assert(tag@ =~= rest@.subrange(from as int, to as int));
    assert(value@ =~= l.skip(end + 1));
    Ok((tag, value))
}

/// The date that six digits `YYMMDD` stand for: years 00 to 79 lie in the
/// 2000s, years 80 to 99 in the 1900s. Anything but a digit, a sign too, is
/// refused.
pub open spec fn yymmdd_date(s: Seq<char>) -> Result<(int, int, int), ErrorKind> {
    if s.len() != 6 {
        Err(ErrorKind::BadInput)
    } else {
        match (
            parse_digits(s.subrange(0, 2), u32::MAX as int),
            parse_digits(s.subrange(2, 4), u32::MAX as int),
            parse_digits(s.subrange(4, 6), u32::MAX as int),
        ) {
            (Ok(yy), Ok(mm), Ok(dd)) => {
                let year = if yy >= 80 {
                    1900 + yy
                } else {
                    2000 + yy
                };
                if valid_ymd(year, mm, dd) {
                    Ok((year, mm, dd))
                } else {
                    Err(ErrorKind::BadInput)
                }
            },
            _ => Err(ErrorKind::BadInput),
        }
    }
}

/// Reads a date written as `YYMMDD`.
pub fn parse_mt940_yy_mm_dd(s: &str) -> (r: Result<Date, ParseError>)
    ensures
        date_outcome(r, yymmdd_date(s@)),
{
    let chars = chars_of(s);
    let c = chars.as_slice();
    if c.len() != 6 {
        return Err(ParseError::BadInput(quoted("invalid YYMMDD date: ", c)));
    }
    let yy = match parse_u32_digits(vstd::slice::slice_subrange(c, 0, 2)) {
        Ok(v) => v,
        Err(_) => {
            return Err(ParseError::BadInput(quoted("invalid year in YYMMDD: ", c)));
        },
    };
    let mm = match parse_u32_digits(vstd::slice::slice_subrange(c, 2, 4)) {
        Ok(v) => v,
        Err(_) => {
            return Err(ParseError::BadInput(quoted("invalid month in YYMMDD: ", c)));
        },
    };
    let dd = match parse_u32_digits(vstd::slice::slice_subrange(c, 4, 6)) {
        Ok(v) => v,
        Err(_) => {
            return Err(ParseError::BadInput(quoted("invalid day in YYMMDD: ", c)));
        },
    };
    if yy > 2_000_000_000 {
        return Err(ParseError::BadInput(quoted("invalid YYMMDD date components: ", c)));
    }
    let year: i32 = if yy >= 80 {
        1900 + yy as i32
    } else {
        2000 + yy as i32
    };
    match Date::from_ymd_opt(year, mm, dd) {
        Some(d) => Ok(d),
        None => Err(ParseError::BadInput(quoted("invalid YYMMDD date components: ", c))),
    }
}

/// The booking date of an entry: its value date, unless the entry names a
/// month and day (`MMDD`) or a day (`DD`) of its own, in digits alone, which
/// then lie in the value date's year, or year and month.
pub open spec fn booking_date_of(value_date: (int, int, int), entry_date: Option<Seq<char>>)
    -> Result<(int, int, int), ErrorKind> {
    match entry_date {
        None => Ok(value_date),
        Some(ed) => if ed.len() == 4 {
            match (
                parse_digits(ed.subrange(0, 2), u32::MAX as int),
                parse_digits(ed.subrange(2, 4), u32::MAX as int),
            ) {
                (Ok(mm), Ok(dd)) => if valid_ymd(value_date.0, mm, dd) {
                    Ok((value_date.0, mm, dd))
                } else {
                    Err(ErrorKind::BadInput)
                },
                _ => Err(ErrorKind::BadInput),
            }
        } else if ed.len() == 2 {
            match parse_digits(ed, u32::MAX as int) {
                Ok(dd) => if valid_ymd(value_date.0, value_date.1, dd) {
                    Ok((value_date.0, value_date.1, dd))
                } else {
                    Err(ErrorKind::BadInput)
                },
                Err(_) => Err(ErrorKind::BadInput),
            }
        } else {
            Err(ErrorKind::BadInput)
        },
    }
}

/// Derives the booking date of an entry from its value date and its entry
/// date.
pub fn derive_booking_date(value_date: Date, entry_date: Option<&str>) -> (r: Result<
    Date,
    ParseError,
>)
    ensures
        date_outcome(r, booking_date_of(value_date@, str_text(entry_date))),
{
    let ed = match entry_date {
        Some(ed) => chars_of(ed),
        None => {
            return Ok(value_date);
        },
    };
    let c = ed.as_slice();
    let year = value_date.year();
    if c.len() == 4 {
        let mm = match parse_u32_digits(vstd::slice::slice_subrange(c, 0, 2)) {
            Ok(v) => v,
            Err(_) => {
                return Err(ParseError::BadInput(quoted("invalid MMDD in entry date: ", c)));
            },
        };
        let dd = match parse_u32_digits(vstd::slice::slice_subrange(c, 2, 4)) {
            Ok(v) => v,
            Err(_) => {
                return Err(ParseError::BadInput(quoted("invalid MMDD in entry date: ", c)));
            },
        };
        match Date::from_ymd_opt(year, mm, dd) {
            Some(d) => Ok(d),
            None => Err(ParseError::BadInput(quoted("invalid MMDD entry date: ", c))),
        }
    } else if c.len() == 2 {
        let mm = value_date.month();
        let dd = match parse_u32_digits(c) {
            Ok(v) => v,
            Err(_) => {
                return Err(ParseError::BadInput(quoted("invalid DD in entry date: ", c)));
            },
        };
        assert(c@.subrange(0, 2) =~= c@);
        match Date::from_ymd_opt(year, mm, dd) {
            Some(d) => Ok(d),
            None => Err(ParseError::BadInput(quoted("invalid DD entry date: ", c))),
        }
    } else {
        Err(ParseError::BadInput(quoted("entry date must be 2 or 4 digits, got ", c)))
    }
}

/// The pattern of a token that has the shape of an IBAN: two letters, two
/// digits, then eleven to thirty letters or digits, in either case.
pub open spec fn iban_pattern() -> Seq<char> {
    "(?i)^[A-Z]{2}\\d{2}[A-Z0-9]{11,30}$"@
}

/// Whether the regex crate finds a match of `pattern` in `text`; false
/// where it does not accept the pattern.
pub uninterp spec fn regex_matches(pattern: Seq<char>, text: Seq<char>) -> bool;

/// `Regex::new` and `Regex::is_match`: compiles the pattern and searches
/// the text for a match. Both depend on nothing but their arguments.
#[verifier::external_body]
fn regex_is_match(pattern: &str, text: &str) -> (r: bool)
    ensures
        r == regex_matches(pattern@, text@),
{
    regex::Regex::new(pattern).map(|re| re.is_match(text)).unwrap_or(false)
}

/// Whether a text is written in capital ASCII letters and digits alone.
pub open spec fn in_capitals(s: Seq<char>) -> bool {
    forall|i: int| 0 <= i < s.len() ==> ('A' <= #[trigger] s[i] <= 'Z') || is_ascii_digit(s[i])
}

/// Tells whether a text is written in capital ASCII letters and digits
/// alone.
pub fn is_in_capitals(s: &[char]) -> (r: bool)
    ensures
        r == in_capitals(s@),
{
    let mut i: usize = 0;
    while i < s.len()
        invariant
            i <= s.len(),
            forall|j: int| 0 <= j < i ==> ('A' <= #[trigger] s@[j] <= 'Z') || is_ascii_digit(s@[j]),
        decreases s.len() - i,
    {
        let c = s[i];
        if !(('A' <= c && c <= 'Z') || ('0' <= c && c <= '9')) {
            return false;
        }
        i += 1;
    }
    true
}

/// A token in upper case: the token itself where it is written in capitals
/// and digits alone, and else what upper-casing makes of it.
pub open spec fn capitals_of(s: Seq<char>) -> Seq<char> {
    if in_capitals(s) {
        s
    } else {
        uppercase_of(s)
    }
}

/// The IBAN that a token holds: the token without the characters around it
/// that are neither ASCII letters nor digits, in upper case, if that is one
/// word and has the shape of an IBAN.
pub open spec fn iban_of(token: Seq<char>) -> Option<Seq<char>> {
    let cleaned = capitals_of(strip(token, CharClass::NonAsciiAlphanumeric));
    if is_word(cleaned) && regex_matches(iban_pattern(), cleaned) {
        Some(cleaned)
    } else {
        None
    }
}

/// Cleans a token and checks that it has the shape of an IBAN.
pub fn normalize_and_check_iban(token: &str) -> (r: Option<String>)
    ensures
        text_of(r) == iban_of(token@),
{
    let chars = chars_of(token);
    check_iban_token(chars.as_slice())
}

fn check_iban_token(token: &[char]) -> (r: Option<String>)
    ensures
        text_of(r) == iban_of(token@),
{
    let bare = strip_of(token, CharClass::NonAsciiAlphanumeric);
    let cleaned = if is_in_capitals(bare) {
        string_of(bare)
    } else {
        uppercase(string_of(bare).as_str())
    };
    let word = chars_of(cleaned.as_str());
    if word.len() == 0 || scan_run(word.as_slice(), CharClass::NonWhitespace, 0) < word.len() {
        proof {
            crate::text::lemma_run_end_props(word@, CharClass::NonWhitespace, 0);
        }
        return None;
    }
    proof {
        crate::text::lemma_run_end_props(word@, CharClass::NonWhitespace, 0);
    }
    if regex_is_match("(?i)^[A-Z]{2}\\d{2}[A-Z0-9]{11,30}$", cleaned.as_str()) {
        Some(cleaned)
    } else {
        None
    }
}

/// The index of the first token at or after `from` that holds an IBAN, or
/// the number of tokens if none does.
pub open spec fn first_iban_token(toks: Seq<Seq<char>>, from: int) -> int
    decreases toks.len() - from,
{
    if from < 0 || from >= toks.len() {
        from
    } else if iban_of(toks[from]) is Some {
        from
    } else {
        first_iban_token(toks, from + 1)
    }
}

/// The first IBAN-shaped word of a line, and as its name the words that
/// follow it, joined by single spaces.
pub open spec fn iban_and_name_in(line: Seq<char>) -> Option<(Seq<char>, Option<Seq<char>>)> {
    let toks = tokens(line);
    let i = first_iban_token(toks, 0);
    if 0 <= i < toks.len() {
        Some(
            (
                iban_of(toks[i])->0,
                if i + 1 < toks.len() {
                    Some(join(toks.skip(i + 1), seq![' ']))
                } else {
                    None
                },
            ),
        )
    } else {
        None
    }
}

/// The first IBAN-shaped word of a line.
pub open spec fn iban_in(line: Seq<char>) -> Option<Seq<char>> {
    match iban_and_name_in(line) {
        Some((iban, _)) => Some(iban),
        None => None,
    }
}

/// What an optional pair of IBAN and name stands for.
pub open spec fn found_text(r: Option<(String, Option<String>)>) -> Option<
    (Seq<char>, Option<Seq<char>>),
> {
    match r {
        Some((iban, name)) => Some((iban@, text_of(name))),
        None => None,
    }
}

/// Looks in one line for a word that has the shape of an IBAN; what
/// follows the word on the line is the counterparty's name.
pub fn find_iban_and_name_in_line(line: &str) -> (r: Option<(String, Option<String>)>)
    ensures
        found_text(r) == iban_and_name_in(line@),
{
    let chars = chars_of(line);
    iban_and_name_in_chars(chars.as_slice())
}

fn iban_and_name_in_chars(line: &[char]) -> (r: Option<(String, Option<String>)>)
    ensures
        found_text(r) == iban_and_name_in(line@),
{
    let toks = split_tokens(line);
    let mut i: usize = 0;
    while i < toks.len()
        invariant
            i <= toks.len(),
            views(toks@) == tokens(line@),
            first_iban_token(tokens(line@), 0) == first_iban_token(tokens(line@), i as int),
        decreases toks.len() - i,
    {
        assert(views(toks@)[i as int] == toks@[i as int]@);
        if let Some(iban) = check_iban_token(toks[i].as_slice()) {
            let name = if i + 1 < toks.len() {
                let rest = vstd::slice::slice_subrange(toks.as_slice(), i + 1, toks.len());
                let space = ['\u{20}'];
                assert(space@ =~= seq![' ']);
                assert(views(rest@) =~= tokens(line@).skip(i + 1));
                let joined = join_texts(rest, space.as_slice());
                Some(string_of(joined.as_slice()))
            } else {
                None
            };
            return Some((iban, name));
        }
        i += 1;
    }
    None
}

/// Looks in one line for a word that has the shape of an IBAN.
pub fn find_iban_in_line(line: &str) -> (r: Option<String>)
    ensures
        text_of(r) == iban_in(line@),
{
    match find_iban_and_name_in_line(line) {
        Some((iban, _)) => Some(iban),
        None => None,
    }
}

/// The part of a line of free text that can name the counterparty: what
/// stands before the first ` // ` where an IBAN stands before it, and
/// otherwise the whole line.
pub open spec fn party_text(line: Seq<char>) -> Seq<char> {
    match find(line, " // "@) {
        Some(at) => if iban_in(line.take(at)) is Some {
            line.take(at)
        } else {
            line
        },
        None => line,
    }
}

/// The part of a line of free text that describes the transaction: what
/// stands behind the first ` // ` where an IBAN stands before it, and
/// otherwise the whole line.
pub open spec fn detail_text(line: Seq<char>) -> Seq<char> {
    match find(line, " // "@) {
        Some(at) => if iban_in(line.take(at)) is Some {
            line.skip(at + 4)
        } else {
            line
        },
        None => line,
    }
}

/// Splits a line of free text into the part that can name the counterparty
/// and the part that describes the transaction. Only a line that holds an
/// IBAN before its first ` // ` is split; any other line is both.
pub fn split_free_text(line: &str) -> (r: (String, String))
    ensures
        r.0@ == party_text(line@),
        r.1@ == detail_text(line@),
{
    proof {
        reveal_strlit(" // ");
    }
    let chars = chars_of(line);
    let mark = chars_of(" // ");
    match find_in(chars.as_slice(), mark.as_slice()) {
        Some(at) => {
            let head = vstd::slice::slice_subrange(chars.as_slice(), 0, at);
            assert(head@ =~= line@.take(at as int));
            if iban_and_name_in_chars(head).is_some() {
                let tail = vstd::slice::slice_subrange(chars.as_slice(), at + 4, chars.len());
                assert(tail@ =~= line@.skip(at + 4));
                (string_of(head), string_of(tail))
            } else {
                (String::from_str(line), String::from_str(line))
            }
        },
        None => (String::from_str(line), String::from_str(line)),
    }
}

/// The index of the first line at or after `from` that holds an IBAN and a
/// name after it, or the number of lines if there is none.
pub open spec fn first_named_line(lines: Seq<Seq<char>>, from: int) -> int
    decreases lines.len() - from,
{
    if from < 0 || from >= lines.len() {
        from
    } else if iban_and_name_in(lines[from]) matches Some((_, Some(_))) {
        from
    } else {
        first_named_line(lines, from + 1)
    }
}

/// The index of the first line at or after `from` that holds an IBAN, or
/// the number of lines if there is none.
pub open spec fn first_iban_line(lines: Seq<Seq<char>>, from: int) -> int
    decreases lines.len() - from,
{
    if from < 0 || from >= lines.len() {
        from
    } else if iban_in(lines[from]) is Some {
        from
    } else {
        first_iban_line(lines, from + 1)
    }
}

/// The first line at or after `from` that, once trimmed, is neither empty nor
/// holds an IBAN.
pub open spec fn name_line(lines: Seq<Seq<char>>, from: int) -> Option<Seq<char>>
    decreases lines.len() - from,
{
    if from < 0 || from >= lines.len() {
        None
    } else if trim(lines[from]).len() == 0 || iban_in(trim(lines[from])) is Some {
        name_line(lines, from + 1)
    } else {
        Some(trim(lines[from]))
    }
}

/// The counterparty that free-text lines name: the first line that holds
/// both an IBAN and a name after it; failing that, the first IBAN of any
/// line, with the next line that says something else as the name.
pub open spec fn iban_and_name_in_lines(lines: Seq<Seq<char>>) -> Option<
    (Seq<char>, Option<Seq<char>>),
> {
    let named = first_named_line(lines, 0);
    let with_iban = first_iban_line(lines, 0);
    if 0 <= named < lines.len() {
        iban_and_name_in(lines[named])
    } else if 0 <= with_iban < lines.len() {
        Some((iban_in(lines[with_iban])->0, name_line(lines, with_iban + 1)))
    } else {
        None
    }
}

/// Looks in the free-text lines of an entry for the counterparty's IBAN
/// and name.
pub fn find_iban_and_name_in_lines(lines: &[String]) -> (r: Option<(String, Option<String>)>)
    ensures
        found_text(r) == iban_and_name_in_lines(string_views(lines@)),
{
    let ghost texts = string_views(lines@);
    let mut i: usize = 0;
    while i < lines.len()
        invariant
            i <= lines.len(),
            texts == string_views(lines@),
            first_named_line(texts, 0) == first_named_line(texts, i as int),
        decreases lines.len() - i,
    {
        assert(texts[i as int] == lines@[i as int]@);
        let found = find_iban_and_name_in_line(lines[i].as_str());
        if let Some((iban, name)) = found {
            if name.is_some() {
                return Some((iban, name));
            }
        }
        i += 1;
    }
    let mut j: usize = 0;
    while j < lines.len()
        invariant
            j <= lines.len(),
            texts == string_views(lines@),
            first_named_line(texts, 0) == lines.len(),
            first_iban_line(texts, 0) == first_iban_line(texts, j as int),
        decreases lines.len() - j,
    {
        assert(texts[j as int] == lines@[j as int]@);
        if let Some(iban) = find_iban_in_line(lines[j].as_str()) {
            let mut k: usize = j + 1;
            while k < lines.len()
                invariant
                    j < k <= lines.len(),
                    texts == string_views(lines@),
                    first_named_line(texts, 0) == lines.len(),
                    first_iban_line(texts, 0) == j,
                    Some(iban@) == iban_in(texts[j as int]),
                    name_line(texts, j + 1) == name_line(texts, k as int),
                decreases lines.len() - k,
            {
                assert(texts[k as int] == lines@[k as int]@);
                let chars = chars_of(lines[k].as_str());
                let trimmed = trim_of(chars.as_slice());
                if trimmed.len() > 0 {
                    let t = string_of(trimmed);
                    if find_iban_in_line(t.as_str()).is_none() {
                        return Some((iban, Some(t)));
                    }
                }
                k += 1;
            }
            return Some((iban, None));
        }
        j += 1;
    }
    None
}

/// The counterparty that the free-text lines of an entry name: what
/// [`iban_and_name_in_lines`] finds in them, but where the line that holds
/// both the IBAN and the name holds ` // ` behind the IBAN, the name ends
/// before it.
pub open spec fn counterparty_in_lines(lines: Seq<Seq<char>>) -> Option<
    (Seq<char>, Option<Seq<char>>),
> {
    let named = first_named_line(lines, 0);
    if 0 <= named < lines.len() {
        iban_and_name_in(party_text(lines[named]))
    } else {
        iban_and_name_in_lines(lines)
    }
}

/// Finds the first line that holds an IBAN and a name after it; the number
/// of lines where there is none.
pub fn first_named(lines: &[String]) -> (r: usize)
    ensures
        r == first_named_line(string_views(lines@), 0),
        r <= lines.len(),
{
    let ghost texts = string_views(lines@);
    let mut i: usize = 0;
    while i < lines.len()
        invariant
            i <= lines.len(),
            texts == string_views(lines@),
            first_named_line(texts, 0) == first_named_line(texts, i as int),
        decreases lines.len() - i,
    {
        assert(texts[i as int] == lines@[i as int]@);
        if let Some((_, Some(_))) = find_iban_and_name_in_line(lines[i].as_str()) {
            return i;
        }
        i += 1;
    }
    i
}

/// Looks in the free-text lines of an entry for the counterparty's IBAN
/// and name, and lets the name end before a ` // ` on its line.
pub fn find_counterparty_in_lines(lines: &[String]) -> (r: Option<(String, Option<String>)>)
    ensures
        found_text(r) == counterparty_in_lines(string_views(lines@)),
{
    let named = first_named(lines);
    if named < lines.len() {
        assert(string_views(lines@)[named as int] == lines@[named as int]@);
        let (party, _) = split_free_text(lines[named].as_str());
        find_iban_and_name_in_line(party.as_str())
    } else {
        find_iban_and_name_in_lines(lines)
    }
}

/// Takes the first character off the text that `rest` refers to.
pub fn take_char<'a>(rest: &mut &'a str) -> (r: Option<char>)
    ensures
        old(rest)@.len() == 0 ==> r is None && (*final(rest))@ == (*old(rest))@,
        old(rest)@.len() > 0 ==> r == Some((*old(rest))@[0]) && (*final(rest))@ == (*old(
            rest,
        ))@.skip(1),
{
    let s: &'a str = *rest;
    let n = s.unicode_len();
    if n == 0 {
        None
    } else {
        let c = s.get_char(0);
        *rest = s.substring_char(1, n);
        Some(c)
    }
}

/// Takes off the text that `rest` refers to the longest prefix whose
/// characters all pass `pred`.
pub fn take_while<'a, F: Fn(char) -> bool>(rest: &mut &'a str, pred: F) -> (r: String)
    requires
        forall|c: char| call_requires(pred, (c,)),
    ensures
        (*old(rest))@ == r@ + (*final(rest))@,
        forall|i: int| 0 <= i < r@.len() ==> call_ensures(pred, (#[trigger] r@[i],), true),
        (*final(rest))@.len() > 0 ==> call_ensures(pred, ((*final(rest))@[0],), false),
{
    let s: &'a str = *rest;
    let chars = chars_of(s);
    let mut i: usize = 0;
    let mut go = true;
    while go && i < chars.len()
        invariant
            i <= chars.len(),
            chars@ == s@,
            forall|c: char| call_requires(pred, (c,)),
            forall|k: int| 0 <= k < i ==> call_ensures(pred, (#[trigger] chars@[k],), true),
            !go ==> i < chars.len() && call_ensures(pred, (chars@[i as int],), false),
        decreases chars.len() - i + (if go { 1int } else { 0int }),
    {
        if pred(chars[i]) {
            i += 1;
        } else {
            go = false;
        }
    }
    let taken = vstd::slice::slice_subrange(chars.as_slice(), 0, i);
    *rest = s.substring_char(i, chars.len());
    assert(s@ =~= taken@ + s@.subrange(i as int, chars.len() as int));
    string_of(taken)
}

/// Mark, funds code, amount and tail of what follows the dates in an entry
/// line: one character of direction mark; a funds code where a letter other
/// than `C` and `D` follows it; then the run of digits, `,` and `.`, which
/// must hold at least one digit; then the tail.
pub open spec fn dc_and_amount_of(rest: Seq<char>) -> Result<
    (char, Option<char>, Seq<char>, Seq<char>),
    ErrorKind,
> {
    if rest.len() == 0 {
        Err(ErrorKind::BadInput)
    } else {
        let has_funds_code = rest.len() > 1 && is_ascii_alphabetic(rest[1]) && rest[1] != 'C'
            && rest[1] != 'D';
        let start: int = if has_funds_code {
            2
        } else {
            1
        };
        let end = run_end(rest, CharClass::Amount, start);
        if !holds_digit(rest.subrange(start, end)) {
            Err(ErrorKind::BadInput)
        } else {
            Ok(
                (
                    rest[0],
                    if has_funds_code {
                        Some(rest[1])
                    } else {
                        None
                    },
                    rest.subrange(start, end),
                    rest.skip(end),
                ),
            )
        }
    }
}

/// Whether a character can stand in an amount: a digit, `,` or `.`.
pub fn is_amount_char(ch: char) -> (b: bool)
    ensures
        b == CharClass::Amount.has(ch),
{
    CharClass::Amount.contains(ch)
}

/// Reads the direction mark, the optional funds code and the amount of an
/// entry line, and hands back the tail.
pub fn parse_dc_and_amount<'a>(rest: &'a str, full_value: &str) -> (r: Result<
    (char, Option<char>, String, &'a str),
    ParseError,
>)
    ensures
        match r {
            Ok((mark, funds, amount, tail)) => dc_and_amount_of(rest@) == Ok::<
                (char, Option<char>, Seq<char>, Seq<char>),
                ErrorKind,
            >((mark, funds, amount@, tail@)),
            Err(e) => e.kind() == ErrorKind::BadInput && dc_and_amount_of(rest@) is Err,
        },
{
    let ghost whole = rest@;
    let full = chars_of(full_value);
    let mut rest = rest;
    let dc_mark = match take_char(&mut rest) {
        Some(c) => c,
        None => {
            return Err(
                ParseError::BadInput(
                    quoted("no debit/credit mark in :61: ", full.as_slice()),
                ),
            );
        },
    };
    let mut funds_code = None;
    if rest.unicode_len() > 0 {
        let next = rest.get_char(0);
        if char_is_ascii_alphabetic(next) && next != 'C' && next != 'D' {
            let _ = take_char(&mut rest);
            funds_code = Some(next);
        }
    }
    let ghost start: int = if funds_code is Some {
        2
    } else {
        1
    };
    assert(rest@ =~= whole.skip(start));
    let amount = take_while(&mut rest, is_amount_char);
    proof {
        let end = start + amount@.len();
        let mid = whole.skip(start);
        assert(mid == amount@ + rest@);
        assert forall|i: int| start <= i < end implies CharClass::Amount.has(
            #[trigger] whole[i],
        ) by {
            assert(mid[i - start] == whole[i]);
            assert(mid[i - start] == amount@[i - start]);
        }
        if end < whole.len() {
            assert(mid[end - start] == whole[end]);
            assert(mid[end - start] == rest@[0]);
        }
        crate::text::lemma_run_end(whole, CharClass::Amount, start, end);
        assert(amount@ =~= whole.subrange(start, end));
        assert(rest@ =~= mid.skip(amount@.len() as int));
        assert(mid.skip(amount@.len() as int) =~= whole.skip(end));
    }
    let figures = chars_of(amount.as_str());
    if !has_digit(figures.as_slice()) {
        return Err(
            ParseError::BadInput(quoted("no amount found in :61: ", full.as_slice())),
        );
    }
    Ok((dc_mark, funds_code, amount, rest))
}

} // verus!
