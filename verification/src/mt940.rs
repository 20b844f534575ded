//! The SWIFT MT940 statement message: block framing, tag lines, the
//! positional grammars of balance and entry values, and the projection onto
//! the canonical statement.

pub mod utils;

use crate::error::{quoted, with_detail, ErrorKind, ParseError};
use crate::model::{
    latest_booking, lemma_latest_prefix, ordered_or, statement_outcome, str_text, text_of,
    transaction_outcome, transaction_views, Balance, Direction, Statement, StatementView,
    Transaction, TransactionView,
};
use crate::mt940::utils::{
    booking_date_of, counterparty_in_lines, dc_and_amount_of, derive_booking_date, detail_text,
    find_counterparty_in_lines, find_iban_and_name_in_line, first_named, first_named_line,
    iban_and_name_in, parse_dc_and_amount, parse_mt940_yy_mm_dd, split_free_text, split_tag_line,
    tag_line_of, yymmdd_date,
};
use crate::text::{
    blank, chars_of, equals_str, find, find_in, has_prefix, is_blank, join, join_strings, lines,
    push_str, run_end, scan_run, split_lines, starts_with, string_of, string_views, strip_end,
    strip_end_of, strip_range, strip_start_of, trim, trim_of, trim_start, views, CharClass,
};
use crate::utils::{amount_of, currency_of_text, parse_amount, parse_currency};
use vstd::prelude::*;
use vstd::string::{StrSliceExecFns, StringExecFns};

verus! {

/// A balance as its tag value spells it.
#[derive(Debug, Clone)]
pub struct Mt940Balance {
    /// The direction mark, `C` or `D`.
    pub dc_mark: char,
    /// The date as `YYMMDD`.
    pub date: String,
    /// The currency code.
    pub currency: String,
    /// The amount as written.
    pub amount: String,
}

/// What an `Mt940Balance` stands for.
pub struct BalanceView {
    pub dc_mark: char,
    pub date: Seq<char>,
    pub currency: Seq<char>,
    pub amount: Seq<char>,
}

impl View for Mt940Balance {
    type V = BalanceView;

    open spec fn view(&self) -> BalanceView {
        BalanceView {
            dc_mark: self.dc_mark,
            date: self.date@,
            currency: self.currency@,
            amount: self.amount@,
        }
    }
}

/// The free text of an entry.
#[derive(Debug, Clone, Default)]
pub struct Mt940EntryInfo {
    /// The lines, each trimmed, without their tags.
    pub lines: Vec<String>,
}

/// One entry: a `:61:` line and the free text that follows it.
#[derive(Debug, Clone)]
pub struct Mt940Entry {
    /// The whole `:61:` line.
    pub raw_61: String,
    /// The value date as `YYMMDD`.
    pub value_date: String,
    /// The entry date as `MMDD` or `DD`.
    pub entry_date: Option<String>,
    /// The direction mark, `C` or `D`.
    pub dc_mark: char,
    /// The funds code after the mark.
    pub funds_code: Option<char>,
    /// The amount as written.
    pub amount: String,
    /// The four letters of the transaction type.
    pub transaction_type: Option<String>,
    /// The reference before `//`.
    pub customer_reference: Option<String>,
    /// The reference after `//`.
    pub bank_reference: Option<String>,
    /// What follows the bank reference.
    pub extra_details: Option<String>,
    /// The free text from `:86:` and continuation lines.
    pub info: Mt940EntryInfo,
}

/// What an `Mt940Entry` stands for.
pub struct EntryView {
    pub raw_61: Seq<char>,
    pub value_date: Seq<char>,
    pub entry_date: Option<Seq<char>>,
    pub dc_mark: char,
    pub funds_code: Option<char>,
    pub amount: Seq<char>,
    pub transaction_type: Option<Seq<char>>,
    pub customer_reference: Option<Seq<char>>,
    pub bank_reference: Option<Seq<char>>,
    pub extra_details: Option<Seq<char>>,
    pub info: Seq<Seq<char>>,
}

impl View for Mt940Entry {
    type V = EntryView;

    open spec fn view(&self) -> EntryView {
        EntryView {
            raw_61: self.raw_61@,
            value_date: self.value_date@,
            entry_date: text_of(self.entry_date),
            dc_mark: self.dc_mark,
            funds_code: self.funds_code,
            amount: self.amount@,
            transaction_type: text_of(self.transaction_type),
            customer_reference: text_of(self.customer_reference),
            bank_reference: text_of(self.bank_reference),
            extra_details: text_of(self.extra_details),
            info: string_views(self.info.lines@),
        }
    }
}

/// One statement message, as its tags spell it.
#[derive(Debug, Clone)]
pub struct Mt940Message {
    /// `:20:`, the transaction reference.
    pub transaction_reference: Option<String>,
    /// `:25:`, the account.
    pub account_id: String,
    /// `:28C:`, statement and sequence number.
    pub statement_number: Option<String>,
    /// `:60F:` or `:60M:`, the opening balance.
    pub opening_balance: Mt940Balance,
    /// The entries, in the order of the message.
    pub entries: Vec<Mt940Entry>,
    /// `:62F:` or `:62M:`, the closing balance.
    pub closing_balance: Option<Mt940Balance>,
    /// `:64:`, the available balance.
    pub closing_available_balance: Option<Mt940Balance>,
}

/// What an `Mt940Message` stands for.
pub struct MessageView {
    pub transaction_reference: Option<Seq<char>>,
    pub account_id: Seq<char>,
    pub statement_number: Option<Seq<char>>,
    pub opening_balance: BalanceView,
    pub entries: Seq<EntryView>,
    pub closing_balance: Option<BalanceView>,
    pub closing_available_balance: Option<BalanceView>,
}

/// What a list of entries stands for.
pub open spec fn entry_views(v: Seq<Mt940Entry>) -> Seq<EntryView> {
    Seq::new(v.len(), |i: int| v[i]@)
}

/// What an optional balance stands for.
pub open spec fn balance_view(o: Option<Mt940Balance>) -> Option<BalanceView> {
    match o {
        Some(b) => Some(b@),
        None => None,
    }
}

/// What an optional entry stands for.
pub open spec fn entry_view(o: Option<Mt940Entry>) -> Option<EntryView> {
    match o {
        Some(e) => Some(e@),
        None => None,
    }
}

impl View for Mt940Message {
    type V = MessageView;

    open spec fn view(&self) -> MessageView {
        MessageView {
            transaction_reference: text_of(self.transaction_reference),
            account_id: self.account_id@,
            statement_number: text_of(self.statement_number),
            opening_balance: self.opening_balance@,
            entries: entry_views(self.entries@),
            closing_balance: balance_view(self.closing_balance),
            closing_available_balance: balance_view(self.closing_available_balance),
        }
    }
}

/// The balance that a tag value spells: after trimming, one character of
/// direction mark, six digits of date, three characters of currency, and the
/// amount, which is trimmed again. A value of fewer than eleven characters,
/// or with anything but digits in the place of the date, is malformed.
pub open spec fn balance_of(value: Seq<char>) -> Result<BalanceView, ErrorKind> {
    let v = trim(value);
    if v.len() < 11 || !all_in(v, CharClass::AsciiDigit, 1, 6) {
        Err(ErrorKind::BadInput)
    } else {
        Ok(
            BalanceView {
                dc_mark: v[0],
                date: v.subrange(1, 7),
                currency: v.subrange(7, 10),
                amount: trim(v.skip(10)),
            },
        )
    }
}

/// Reads the value of a balance tag.
pub fn parse_balance(value: &str) -> (r: Result<Mt940Balance, ParseError>)
    ensures
        match r {
            Ok(b) => balance_of(value@) == Ok::<BalanceView, ErrorKind>(b@),
            Err(e) => balance_of(value@) == Err::<BalanceView, ErrorKind>(e.kind()),
        },
{
    let chars = chars_of(value);
    let v = trim_of(chars.as_slice());
    if v.len() < 11 {
        return Err(ParseError::BadInput(quoted("balance value too short: ", v)));
    }
    if !has_run(v, CharClass::AsciiDigit, 1, 6) {
        return Err(ParseError::BadInput(quoted("balance date is not six digits: ", v)));
    }
    let amount = trim_of(vstd::slice::slice_subrange(v, 10, v.len()));
    Ok(
        Mt940Balance {
            dc_mark: v[0],
            date: string_of(vstd::slice::slice_subrange(v, 1, 7)),
            currency: string_of(vstd::slice::slice_subrange(v, 7, 10)),
            amount: string_of(amount),
        },
    )
}

/// Whether the `n` characters of `s` from `from` on are all of `cls`.
pub open spec fn all_in(s: Seq<char>, cls: CharClass, from: int, n: int) -> bool {
    from + n <= s.len() && run_end(s, cls, from) >= from + n
}

/// The three parts of the reference tail of an entry line: the customer
/// reference before the first `//`; after it the bank reference up to the
/// first space, and then the extra details. Without `//` the whole tail is
/// the customer reference. Each part is trimmed; an empty bank reference or
/// an empty rest is absent.
pub open spec fn references_of(rest: Seq<char>) -> (
    Option<Seq<char>>,
    Option<Seq<char>>,
    Option<Seq<char>>,
) {
    match find(rest, "//"@) {
        Some(pos) => {
            let after = rest.skip(pos + 2);
            let space = run_end(after, CharClass::Except(' '), 0);
            if space < after.len() {
                let extra = trim(after.skip(space));
                (
                    Some(trim(rest.take(pos))),
                    Some(trim(after.take(space))),
                    if extra.len() > 0 {
                        Some(extra)
                    } else {
                        None
                    },
                )
            } else {
                (
                    Some(trim(rest.take(pos))),
                    if trim(after).len() > 0 {
                        Some(trim(after))
                    } else {
                        None
                    },
                    None,
                )
            }
        },
        None => (
            if rest.len() > 0 {
                Some(trim(rest))
            } else {
                None
            },
            None,
            None,
        ),
    }
}

/// The entry that the value of a `:61:` line spells, read from left to
/// right: six digits of value date; four digits of entry date, where four
/// digits follow; direction mark, funds code and amount; four letters of
/// transaction type, where four letters follow; and the reference tail. A
/// value of fewer than eight characters, or one that does not begin with six
/// digits, is malformed.
pub open spec fn entry_of(value: Seq<char>, raw_61: Seq<char>) -> Result<EntryView, ErrorKind> {
    let v = trim(value);
    if v.len() < 8 || !all_in(v, CharClass::AsciiDigit, 0, 6) {
        Err(ErrorKind::BadInput)
    } else {
        let dated = all_in(v, CharClass::AsciiDigit, 6, 4);
        let idx: int = if dated {
            10
        } else {
            6
        };
        match dc_and_amount_of(v.skip(idx)) {
            Err(k) => Err(k),
            Ok((mark, funds, amount, tail)) => {
                let typed = all_in(tail, CharClass::AsciiAlphabetic, 0, 4);
                let rest = if typed {
                    trim_start(tail.skip(4))
                } else {
                    tail
                };
                let refs = references_of(rest);
                Ok(
                    EntryView {
                        raw_61,
                        value_date: v.take(6),
                        entry_date: if dated {
                            Some(v.subrange(6, 10))
                        } else {
                            None
                        },
                        dc_mark: mark,
                        funds_code: funds,
                        amount,
                        transaction_type: if typed {
                            Some(tail.take(4))
                        } else {
                            None
                        },
                        customer_reference: refs.0,
                        bank_reference: refs.1,
                        extra_details: refs.2,
                        info: Seq::empty(),
                    },
                )
            },
        }
    }
}

fn has_run(s: &[char], cls: CharClass, from: usize, n: usize) -> (r: bool)
    requires
        from <= s.len(),
        n <= 16,
    ensures
        r == all_in(s@, cls, from as int, n as int),
{
    if s.len() - from < n {
        return false;
    }
    scan_run(s, cls, from) >= from + n
}

fn some_text(s: &[char]) -> (r: Option<String>)
    ensures
        text_of(r) == Some(s@),
{
    Some(string_of(s))
}

fn text_if_any(s: &[char]) -> (r: Option<String>)
    ensures
        text_of(r) == (if s@.len() > 0 {
            Some(s@)
        } else {
            None
        }),
{
    if s.len() > 0 {
        Some(string_of(s))
    } else {
        None
    }
}

fn parse_references(rest: &[char]) -> (r: (Option<String>, Option<String>, Option<String>))
    ensures
        (text_of(r.0), text_of(r.1), text_of(r.2)) == references_of(rest@),
{
    let slashes = chars_of("//");
    proof {
        reveal_strlit("//");
    }
    assert(slashes@.len() == 2);
    match find_in(rest, slashes.as_slice()) {
        Some(pos) => {
            assert(pos + 2 <= rest.len());
            let customer = some_text(trim_of(vstd::slice::slice_subrange(rest, 0, pos)));
            let after = vstd::slice::slice_subrange(rest, pos + 2, rest.len());
            let space = scan_run(after, CharClass::Except(' '), 0);
            if space < after.len() {
                let bank = some_text(trim_of(vstd::slice::slice_subrange(after, 0, space)));
                let extra = text_if_any(
                    trim_of(vstd::slice::slice_subrange(after, space, after.len())),
                );
                (customer, bank, extra)
            } else {
                (customer, text_if_any(trim_of(after)), None)
            }
        },
        None => {
            if rest.len() > 0 {
                (some_text(trim_of(rest)), None, None)
            } else {
                (None, None, None)
            }
        },
    }
}

impl Mt940Entry {
    /// Adds one line of free text, trimmed.
    pub fn push_info_line(&mut self, line: &str)
        ensures
            final(self)@ == (EntryView { info: old(self)@.info.push(trim(line@)), ..old(self)@ }),
    {
        let chars = chars_of(line);
        let text = string_of(trim_of(chars.as_slice()));
        let ghost before = self.info.lines@;
        self.info.lines.push(text);
        assert(string_views(self.info.lines@) =~= string_views(before).push(trim(line@)));
    }

    /// Reads the value of a `:61:` line; `raw_61` is the whole line, which
    /// the entry keeps.
    pub fn from_61_line(value: &str, raw_61: String) -> (r: Result<Self, ParseError>)
        ensures
            match r {
                Ok(e) => entry_of(value@, raw_61@) == Ok::<EntryView, ErrorKind>(e@),
                Err(e) => entry_of(value@, raw_61@) == Err::<EntryView, ErrorKind>(e.kind()),
            },
    {
        let chars = chars_of(value);
        let (a, b) = strip_range(chars.as_slice(), CharClass::Whitespace, 0, chars.len());
        assert(chars@.subrange(0, chars@.len() as int) =~= chars@);
        let trimmed = value.substring_char(a, b);
        let v = vstd::slice::slice_subrange(chars.as_slice(), a, b);
        assert(v@ == trim(value@));
        let len = v.len();
        if len < 8 {
            return Err(ParseError::BadInput(quoted("statement line too short: ", v)));
        }
        if !has_run(v, CharClass::AsciiDigit, 0, 6) {
            return Err(ParseError::BadInput(quoted("value date is not six digits: ", v)));
        }
        let value_date = string_of(vstd::slice::slice_subrange(v, 0, 6));
        let mut idx: usize = 6;
        let mut entry_date = None;
        if has_run(v, CharClass::AsciiDigit, 6, 4) {
            entry_date = some_text(vstd::slice::slice_subrange(v, 6, 10));
            idx = 10;
        }
        let after_dates = trimmed.substring_char(idx, len);
        let (dc_mark, funds_code, amount, tail) = match parse_dc_and_amount(
            after_dates,
            trimmed,
        ) {
            Ok(parts) => parts,
            Err(e) => {
                return Err(e);
            },
        };
        let tail_chars = chars_of(tail);
        let t = tail_chars.as_slice();
        let mut transaction_type = None;
        let mut rest = t;
        if has_run(t, CharClass::AsciiAlphabetic, 0, 4) {
            transaction_type = some_text(vstd::slice::slice_subrange(t, 0, 4));
            rest = strip_start_of(
                vstd::slice::slice_subrange(t, 4, t.len()),
                CharClass::Whitespace,
            );
        }
        let (customer_reference, bank_reference, extra_details) = parse_references(rest);
        let entry = Mt940Entry {
            raw_61,
            value_date,
            entry_date,
            dc_mark,
            funds_code,
            amount,
            transaction_type,
            customer_reference,
            bank_reference,
            extra_details,
            info: Mt940EntryInfo { lines: Vec::new() },
        };
        assert(string_views(entry.info.lines@) =~= Seq::<Seq<char>>::empty());
        assert(entry@ =~= entry_of(value@, raw_61@)->Ok_0);
        Ok(entry)
    }
}

/// A text as a list of one, or of none where the text is absent.
pub open spec fn listed(o: Option<Seq<char>>) -> Seq<Seq<char>> {
    match o {
        Some(s) => seq![s],
        None => Seq::empty(),
    }
}

/// What the free-text lines of an entry hold that describes the
/// transaction, line by line: each line as it stands, but of the line that
/// names the counterparty with its name only what stands behind ` // `,
/// where the line holds that behind the IBAN.
pub open spec fn detail_texts(info: Seq<Seq<char>>) -> Seq<Seq<char>> {
    Seq::new(
        info.len(),
        |i: int|
            if i == first_named_line(info, 0) {
                detail_text(info[i])
            } else {
                info[i]
            },
    )
}

/// Takes from each free-text line of an entry what describes the
/// transaction.
pub fn detail_lines(info: &[String]) -> (r: Vec<String>)
    ensures
        string_views(r@) == detail_texts(string_views(info@)),
{
    let named = first_named(info);
    let mut details: Vec<String> = Vec::new();
    let ghost texts = string_views(info@);
    let mut i: usize = 0;
    while i < info.len()
        invariant
            i <= info.len(),
            texts == string_views(info@),
            named == first_named_line(texts, 0),
            details@.len() == i,
            forall|j: int| 0 <= j < i ==> (#[trigger] details@[j])@ == detail_texts(texts)[j],
        decreases info.len() - i,
    {
        assert(texts[i as int] == info@[i as int]@);
        if i == named {
            let (_, detail) = split_free_text(info[i].as_str());
            details.push(detail);
        } else {
            details.push(info[i].clone());
        }
        i += 1;
    }
    assert(string_views(details@) =~= detail_texts(texts));
    details
}

/// The pieces of an entry's description: transaction type, customer
/// reference, bank reference behind `//`, extra details, and what the
/// free-text lines hold of description, joined by spaces; each only where
/// the entry has it.
pub open spec fn description_parts(e: EntryView) -> Seq<Seq<char>> {
    listed(e.transaction_type) + listed(e.customer_reference) + listed(
        match e.bank_reference {
            Some(b) => Some("//"@ + b),
            None => None,
        },
    ) + listed(e.extra_details) + listed(
        if e.info.len() > 0 {
            Some(join(detail_texts(e.info), " "@))
        } else {
            None
        },
    )
}

/// The description of an entry: its pieces joined by ` | `, or the whole
/// `:61:` line where it has none.
pub open spec fn description_of(e: EntryView) -> Seq<char> {
    let parts = description_parts(e);
    if parts.len() == 0 {
        e.raw_61
    } else {
        join(parts, " | "@)
    }
}

fn push_part(parts: &mut Vec<String>, part: String)
    ensures
        string_views(final(parts)@) == string_views(old(parts)@) + listed(Some(part@)),
{
    let ghost before = parts@;
    parts.push(part);
    assert(string_views(parts@) =~= string_views(before) + listed(Some(part@)));
}

/// Builds the description of an entry.
pub fn build_description(entry: &Mt940Entry) -> (r: String)
    ensures
        r@ == description_of(entry@),
{
    let mut parts: Vec<String> = Vec::new();
    let ghost e = entry@;
    assert(string_views(parts@) =~= Seq::<Seq<char>>::empty());
    if let Some(tt) = &entry.transaction_type {
        push_part(&mut parts, tt.clone());
    }
    assert(string_views(parts@) =~= listed(e.transaction_type));
    if let Some(cust) = &entry.customer_reference {
        push_part(&mut parts, cust.clone());
    }
    assert(string_views(parts@) =~= listed(e.transaction_type) + listed(e.customer_reference));
    if let Some(bank) = &entry.bank_reference {
        let mut text = chars_of("//");
        push_str(&mut text, bank.as_str());
        push_part(&mut parts, string_of(text.as_slice()));
    }
    let ghost three = listed(e.transaction_type) + listed(e.customer_reference) + listed(
        match e.bank_reference {
            Some(b) => Some("//"@ + b),
            None => None,
        },
    );
    assert(string_views(parts@) =~= three);
    if let Some(extra) = &entry.extra_details {
        push_part(&mut parts, extra.clone());
    }
    assert(string_views(parts@) =~= three + listed(e.extra_details));
    if entry.info.lines.len() > 0 {
        let details = detail_lines(entry.info.lines.as_slice());
        push_part(&mut parts, join_strings(&details, " "));
    }
    assert(string_views(parts@) =~= description_parts(e));
    if parts.len() == 0 {
        entry.raw_61.clone()
    } else {
        join_strings(&parts, " | ")
    }
}

/// The counterparty of an entry: what its free-text lines name, the name
/// ending before a ` // ` that stands behind the IBAN on its line; failing
/// that, what its customer reference names; failing that, what its bank
/// reference names.
pub open spec fn counterparty_of(e: EntryView) -> (Option<Seq<char>>, Option<Seq<char>>) {
    let in_customer = match e.customer_reference {
        Some(c) => iban_and_name_in(c),
        None => None,
    };
    let in_bank = match e.bank_reference {
        Some(b) => iban_and_name_in(b),
        None => None,
    };
    match counterparty_in_lines(e.info) {
        Some((iban, name)) => (Some(iban), name),
        None => match in_customer {
            Some((iban, name)) => (Some(iban), name),
            None => match in_bank {
                Some((iban, name)) => (Some(iban), name),
                None => (None, None),
            },
        },
    }
}

/// Looks for the counterparty's IBAN and name in an entry.
pub fn extract_counterparty_from_mt940(entry: &Mt940Entry) -> (r: (
    Option<String>,
    Option<String>,
))
    ensures
        (text_of(r.0), text_of(r.1)) == counterparty_of(entry@),
{
    if let Some((iban, name)) = find_counterparty_in_lines(entry.info.lines.as_slice()) {
        return (Some(iban), name);
    }
    if let Some(cref) = &entry.customer_reference {
        if let Some((iban, name)) = find_iban_and_name_in_line(cref.as_str()) {
            return (Some(iban), name);
        }
    }
    if let Some(bref) = &entry.bank_reference {
        if let Some((iban, name)) = find_iban_and_name_in_line(bref.as_str()) {
            return (Some(iban), name);
        }
    }
    (None, None)
}

/// The direction that a mark stands for.
pub open spec fn direction_of(mark: char) -> Option<Direction> {
    if mark == 'D' {
        Some(Direction::Debit)
    } else if mark == 'C' {
        Some(Direction::Credit)
    } else {
        None
    }
}

/// The transaction that an entry stands for. A mark other than `C` and `D`
/// is an invalid amount; then the amount, the value date and the entry date
/// must each be well-formed, in this order.
pub open spec fn transaction_of(e: EntryView) -> Result<TransactionView, ErrorKind> {
    match direction_of(e.dc_mark) {
        None => Err(ErrorKind::InvalidAmount),
        Some(direction) => match amount_of(e.amount) {
            Err(k) => Err(k),
            Ok(amount) => match yymmdd_date(e.value_date) {
                Err(k) => Err(k),
                Ok(value_date) => match booking_date_of(value_date, e.entry_date) {
                    Err(k) => Err(k),
                    Ok(booking_date) => Ok(
                        TransactionView {
                            booking_date,
                            value_date: Some(value_date),
                            amount,
                            direction,
                            description: description_of(e),
                            counterparty: counterparty_of(e).0,
                            counterparty_name: counterparty_of(e).1,
                        },
                    ),
                },
            },
        },
    }
}

/// What an optional string slice borrowed from an optional string stands for.
fn borrowed(o: &Option<String>) -> (r: Option<&str>)
    ensures
        str_text(r) == text_of(*o),
{
    match o {
        Some(s) => Some(s.as_str()),
        None => None,
    }
}

impl Transaction {
    /// The transaction that an MT940 entry stands for.
    pub fn from_mt940_entry(entry: &Mt940Entry) -> (r: Result<Transaction, ParseError>)
        ensures
            transaction_outcome(r, transaction_of(entry@)),
    {
        let direction = if entry.dc_mark == 'D' {
            Direction::Debit
        } else if entry.dc_mark == 'C' {
            Direction::Credit
        } else {
            let mark = [entry.dc_mark];
            return Err(
                ParseError::InvalidAmount(with_detail("unknown direction: ", mark.as_slice())),
            );
        };
        let amount = match parse_amount(entry.amount.as_str()) {
            Ok(a) => a,
            Err(e) => {
                return Err(e);
            },
        };
        let value_date = match parse_mt940_yy_mm_dd(entry.value_date.as_str()) {
            Ok(d) => d,
            Err(e) => {
                return Err(e);
            },
        };
        let booking_date = match derive_booking_date(value_date, borrowed(&entry.entry_date)) {
            Ok(d) => d,
            Err(e) => {
                return Err(e);
            },
        };
        let description = build_description(entry);
        let (counterparty, counterparty_name) = extract_counterparty_from_mt940(entry);
        Ok(
            Transaction {
                booking_date,
                value_date: Some(value_date),
                amount,
                direction,
                description,
                counterparty,
                counterparty_name,
            },
        )
    }
}

/// What has been read of a message so far.
pub struct MessageDraft {
    pub transaction_reference: Option<Seq<char>>,
    pub account_id: Option<Seq<char>>,
    pub statement_number: Option<Seq<char>>,
    pub opening_balance: Option<BalanceView>,
    pub closing_balance: Option<BalanceView>,
    pub closing_available_balance: Option<BalanceView>,
    /// The entries that are complete.
    pub entries: Seq<EntryView>,
    /// The entry that free text still goes to.
    pub open_entry: Option<EntryView>,
    /// The tag lines that were passed over, in their order and as they
    /// were read: those with a tag that is not known, and those of an
    /// opening balance after the first.
    pub skipped: Seq<Seq<char>>,
}

impl MessageDraft {
    /// Nothing read yet.
    pub open spec fn empty() -> MessageDraft {
        MessageDraft {
            transaction_reference: None,
            account_id: None,
            statement_number: None,
            opening_balance: None,
            closing_balance: None,
            closing_available_balance: None,
            entries: Seq::empty(),
            open_entry: None,
            skipped: Seq::empty(),
        }
    }

    /// A tag line is passed over.
    pub open spec fn skip(self, line: Seq<char>) -> MessageDraft {
        MessageDraft { skipped: self.skipped.push(line), ..self }
    }

    /// One more line of free text for the open entry; dropped where no
    /// entry is open.
    pub open spec fn with_info(self, text: Seq<char>) -> MessageDraft {
        match self.open_entry {
            Some(e) => MessageDraft {
                open_entry: Some(EntryView { info: e.info.push(text), ..e }),
                ..self
            },
            None => self,
        }
    }

    /// The complete entries, with the open one as the last.
    pub open spec fn all_entries(self) -> Seq<EntryView> {
        match self.open_entry {
            Some(e) => self.entries.push(e),
            None => self.entries,
        }
    }

    /// The draft after one more line.
    ///
    /// A line that begins with a colon is a tag line. `20`, `25` and `28C`
    /// set reference, account and statement number. `60F` and `60M` set the
    /// opening balance, of which the first is kept and any later one is
    /// passed over; `62F` and `62M` set the closing balance and `64` the
    /// available balance. `61` closes the open entry and opens a new one;
    /// `86` adds free text to the open entry. A line with any other tag is
    /// passed over. A line without a colon is free text for the open entry.
    pub open spec fn read(self, raw: Seq<char>) -> Result<MessageDraft, ErrorKind> {
        let t = trim_start(strip_end(raw, CharClass::Only('\r')));
        if starts_with(t, ":"@) {
            match tag_line_of(t) {
                Err(k) => Err(k),
                Ok((tag, value)) => if tag == "20"@ {
                    Ok(MessageDraft { transaction_reference: Some(value), ..self })
                } else if tag == "25"@ {
                    Ok(MessageDraft { account_id: Some(value), ..self })
                } else if tag == "28C"@ {
                    Ok(MessageDraft { statement_number: Some(value), ..self })
                } else if tag == "60F"@ || tag == "60M"@ {
                    match balance_of(value) {
                        Err(k) => Err(k),
                        Ok(b) => Ok(
                            if self.opening_balance is None {
                                MessageDraft { opening_balance: Some(b), ..self }
                            } else {
                                self.skip(t)
                            },
                        ),
                    }
                } else if tag == "62F"@ || tag == "62M"@ {
                    match balance_of(value) {
                        Err(k) => Err(k),
                        Ok(b) => Ok(MessageDraft { closing_balance: Some(b), ..self }),
                    }
                } else if tag == "64"@ {
                    match balance_of(value) {
                        Err(k) => Err(k),
                        Ok(b) => Ok(MessageDraft { closing_available_balance: Some(b), ..self }),
                    }
                } else if tag == "61"@ {
                    match entry_of(value, t) {
                        Err(k) => Err(k),
                        Ok(e) => Ok(
                            MessageDraft {
                                entries: self.all_entries(),
                                open_entry: Some(e),
                                ..self
                            },
                        ),
                    }
                } else if tag == "86"@ {
                    Ok(self.with_info(trim(value)))
                } else {
                    Ok(self.skip(t))
                },
            }
        } else {
            Ok(self.with_info(trim(t)))
        }
    }

    /// The draft after the lines from `from` on.
    pub open spec fn read_all(self, lines: Seq<Seq<char>>, from: int) -> Result<
        MessageDraft,
        ErrorKind,
    >
        decreases lines.len() - from,
    {
        if from < 0 || from >= lines.len() {
            Ok(self)
        } else {
            match self.read(lines[from]) {
                Err(k) => Err(k),
                Ok(next) => next.read_all(lines, from + 1),
            }
        }
    }

    /// The message that the draft amounts to: account and opening balance
    /// must have been read.
    pub open spec fn finish(self) -> Result<MessageView, ErrorKind> {
        match (self.account_id, self.opening_balance) {
            (Some(account_id), Some(opening_balance)) => Ok(
                MessageView {
                    transaction_reference: self.transaction_reference,
                    account_id,
                    statement_number: self.statement_number,
                    opening_balance,
                    entries: self.all_entries(),
                    closing_balance: self.closing_balance,
                    closing_available_balance: self.closing_available_balance,
                },
            ),
            _ => Err(ErrorKind::BadInput),
        }
    }
}

/// The message that the lines of one text block spell.
pub open spec fn message_of(lines: Seq<Seq<char>>) -> Result<MessageView, ErrorKind> {
    match MessageDraft::empty().read_all(lines, 0) {
        Err(k) => Err(k),
        Ok(d) => d.finish(),
    }
}

/// The tag lines of one text block that are passed over when the block is
/// read as a message.
pub open spec fn skipped_of(lines: Seq<Seq<char>>) -> Seq<Seq<char>> {
    match MessageDraft::empty().read_all(lines, 0) {
        Err(_) => Seq::empty(),
        Ok(d) => d.skipped,
    }
}

struct Draft {
    transaction_reference: Option<String>,
    account_id: Option<String>,
    statement_number: Option<String>,
    opening_balance: Option<Mt940Balance>,
    closing_balance: Option<Mt940Balance>,
    closing_available_balance: Option<Mt940Balance>,
    entries: Vec<Mt940Entry>,
    open_entry: Option<Mt940Entry>,
    skipped: Vec<String>,
}

impl View for Draft {
    type V = MessageDraft;

    closed spec fn view(&self) -> MessageDraft {
        MessageDraft {
            transaction_reference: text_of(self.transaction_reference),
            account_id: text_of(self.account_id),
            statement_number: text_of(self.statement_number),
            opening_balance: balance_view(self.opening_balance),
            closing_balance: balance_view(self.closing_balance),
            closing_available_balance: balance_view(self.closing_available_balance),
            entries: entry_views(self.entries@),
            open_entry: entry_view(self.open_entry),
            skipped: string_views(self.skipped@),
        }
    }
}

impl Draft {
    fn add_info(&mut self, text: &str)
        ensures
            final(self)@ == old(self)@.with_info(trim(text@)),
    {
        match &mut self.open_entry {
            Some(e) => {
                e.push_info_line(text);
            },
            None => {},
        }
    }

    fn skip(&mut self, line: &str)
        ensures
            final(self)@ == old(self)@.skip(line@),
    {
        let ghost before = self.skipped@;
        self.skipped.push(String::from_str(line));
        assert(string_views(self.skipped@) =~= string_views(before).push(line@));
    }

    fn close_entry(&mut self)
        ensures
            final(self)@ == (MessageDraft {
                entries: old(self)@.all_entries(),
                open_entry: None,
                ..old(self)@
            }),
    {
        let ghost before = self.entries@;
        match self.open_entry.take() {
            Some(e) => {
                self.entries.push(e);
                assert(entry_views(self.entries@) =~= entry_views(before).push(e@));
            },
            None => {},
        }
    }

    fn read(&mut self, raw: &str) -> (r: Result<(), ParseError>)
        ensures
            match r {
                Ok(_) => old(self)@.read(raw@) == Ok::<MessageDraft, ErrorKind>(final(self)@),
                Err(e) => old(self)@.read(raw@) == Err::<MessageDraft, ErrorKind>(e.kind()),
            },
    {
        let chars = chars_of(raw);
        let line = strip_start_of(
            strip_end_of(chars.as_slice(), CharClass::Only('\r')),
            CharClass::Whitespace,
        );
        let t = string_of(line);
        let colon = chars_of(":");
        if !has_prefix(line, colon.as_slice()) {
            self.add_info(t.as_str());
            assert(trim(trim(t@)) == trim(t@)) by {
                crate::text::lemma_trim_idempotent(t@);
            }
            return Ok(());
        }
        let (tag, value) = match split_tag_line(t.as_str()) {
            Ok(parts) => parts,
            Err(e) => {
                return Err(e);
            },
        };
        let tag_chars = chars_of(tag);
        let tg = tag_chars.as_slice();
        if equals_str(tg, "20") {
            self.transaction_reference = Some(String::from_str(value));
        } else if equals_str(tg, "25") {
            self.account_id = Some(String::from_str(value));
        } else if equals_str(tg, "28C") {
            self.statement_number = Some(String::from_str(value));
        } else if equals_str(tg, "60F") || equals_str(tg, "60M") {
            let bal = match parse_balance(value) {
                Ok(b) => b,
                Err(e) => {
                    return Err(e);
                },
            };
            if self.opening_balance.is_none() {
                self.opening_balance = Some(bal);
            } else {
                self.skip(t.as_str());
            }
        } else if equals_str(tg, "62F") || equals_str(tg, "62M") {
            let bal = match parse_balance(value) {
                Ok(b) => b,
                Err(e) => {
                    return Err(e);
                },
            };
            self.closing_balance = Some(bal);
        } else if equals_str(tg, "64") {
            let bal = match parse_balance(value) {
                Ok(b) => b,
                Err(e) => {
                    return Err(e);
                },
            };
            self.closing_available_balance = Some(bal);
        } else if equals_str(tg, "61") {
            let entry = match Mt940Entry::from_61_line(value, t.clone()) {
                Ok(e) => e,
                Err(e) => {
                    return Err(e);
                },
            };
            self.close_entry();
            self.open_entry = Some(entry);
        } else if equals_str(tg, "86") {
            self.add_info(value);
        } else {
            self.skip(t.as_str());
        }
        Ok(())
    }
}

impl Mt940Message {
    /// Reads the lines of one text block into a message.
    pub fn from_string_lines(lines: &[String]) -> (r: Result<Self, ParseError>)
        ensures
            match r {
                Ok(m) => message_of(string_views(lines@)) == Ok::<MessageView, ErrorKind>(m@),
                Err(e) => message_of(string_views(lines@)) == Err::<MessageView, ErrorKind>(
                    e.kind(),
                ),
            },
    {
        match Mt940Message::from_string_lines_noting(lines) {
            Ok((message, _)) => Ok(message),
            Err(e) => Err(e),
        }
    }

    /// Reads the lines of one text block into a message, and hands back
    /// with it the tag lines that it passed over: those whose tag it does
    /// not know, and those of an opening balance after the first.
    pub fn from_string_lines_noting(lines: &[String]) -> (r: Result<
        (Mt940Message, Vec<String>),
        ParseError,
    >)
        ensures
            match r {
                Ok((m, skipped)) => message_of(string_views(lines@)) == Ok::<
                    MessageView,
                    ErrorKind,
                >(m@) && string_views(skipped@) == skipped_of(string_views(lines@)),
                Err(e) => message_of(string_views(lines@)) == Err::<MessageView, ErrorKind>(
                    e.kind(),
                ),
            },
    {
        let mut draft = Draft {
            transaction_reference: None,
            account_id: None,
            statement_number: None,
            opening_balance: None,
            closing_balance: None,
            closing_available_balance: None,
            entries: Vec::new(),
            open_entry: None,
            skipped: Vec::new(),
        };
        let ghost texts = string_views(lines@);
        assert(draft@ =~= MessageDraft::empty()) by {
            assert(entry_views(draft.entries@) =~= Seq::<EntryView>::empty());
            assert(string_views(draft.skipped@) =~= Seq::<Seq<char>>::empty());
        }
        let mut i: usize = 0;
        while i < lines.len()
            invariant
                i <= lines.len(),
                texts == string_views(lines@),
                MessageDraft::empty().read_all(texts, 0) == draft@.read_all(texts, i as int),
            decreases lines.len() - i,
        {
            assert(texts[i as int] == lines@[i as int]@);
            match draft.read(lines[i].as_str()) {
                Ok(_) => {},
                Err(e) => {
                    return Err(e);
                },
            }
            i += 1;
        }
        draft.close_entry();
        let account_id = match draft.account_id {
            Some(a) => a,
            None => {
                return Err(
                    ParseError::BadInput("MT940: missing :25: account id".to_string()),
                );
            },
        };
        let opening_balance = match draft.opening_balance {
            Some(b) => b,
            None => {
                return Err(
                    ParseError::BadInput(
                        "MT940: missing opening balance :60F:/:60M:".to_string(),
                    ),
                );
            },
        };
        Ok(
            (
                Mt940Message {
                    transaction_reference: draft.transaction_reference,
                    account_id,
                    statement_number: draft.statement_number,
                    opening_balance,
                    entries: draft.entries,
                    closing_balance: draft.closing_balance,
                    closing_available_balance: draft.closing_available_balance,
                },
                draft.skipped,
            ),
        )
    }
}

/// The signed value of a balance: credit is positive, debit negative. The
/// amount is read before the mark is looked at; a mark other than `C` and
/// `D` is an invalid amount.
pub open spec fn balance_value(b: BalanceView) -> Result<Balance, ErrorKind> {
    match amount_of(b.amount) {
        Err(k) => Err(k),
        Ok(a) => match direction_of(b.dc_mark) {
            Some(d) => Ok(d.signed(a as int) as i128),
            None => Err(ErrorKind::InvalidAmount),
        },
    }
}

/// The transactions that the first `n` entries stand for, or the error of
/// the first entry among them that stands for none.
pub open spec fn transactions_of(entries: Seq<EntryView>, n: int) -> Result<
    Seq<TransactionView>,
    ErrorKind,
>
    decreases n,
{
    if n <= 0 {
        Ok(Seq::empty())
    } else {
        match transactions_of(entries, n - 1) {
            Err(k) => Err(k),
            Ok(done) => match transaction_of(entries[n - 1]) {
                Err(k) => Err(k),
                Ok(t) => Ok(done.push(t)),
            },
        }
    }
}

/// The statement that a message stands for.
///
/// The currency is that of the opening balance, whose date opens the
/// period. The period ends on the date of the closing balance; without one,
/// on the latest booking date; without transactions, on the day it opens.
/// A message whose period would end before it begins is refused.
pub open spec fn statement_of(m: MessageView) -> Result<StatementView, ErrorKind> {
    let closing = match m.closing_balance {
        Some(c) => match balance_value(c) {
            Ok(v) => Ok(Some(v)),
            Err(k) => Err(k),
        },
        None => Ok(None),
    };
    match (balance_value(m.opening_balance), closing) {
        (Err(k), _) => Err(k),
        (_, Err(k)) => Err(k),
        (Ok(opening), Ok(closing_balance)) => match yymmdd_date(m.opening_balance.date) {
            Err(k) => Err(k),
            Ok(period_from) => match transactions_of(m.entries, m.entries.len() as int) {
                Err(k) => Err(k),
                Ok(transactions) => {
                    let until = match m.closing_balance {
                        Some(c) => yymmdd_date(c.date),
                        None => Ok(
                            latest_booking(transactions, transactions.len() as int, period_from),
                        ),
                    };
                    match until {
                        Err(k) => Err(k),
                        Ok(period_until) => ordered_or(
                            StatementView {
                                account_id: m.account_id,
                                account_name: None,
                                currency: currency_of_text(m.opening_balance.currency),
                                opening_balance: Some(opening),
                                closing_balance,
                                transactions,
                                period_from,
                                period_until,
                            },
                            ErrorKind::BadInput,
                        ),
                    }
                },
            },
        },
    }
}

fn signed_balance(b: &Mt940Balance, which: &str) -> (r: Result<Balance, ParseError>)
    ensures
        crate::error::same_outcome(r, balance_value(b@)),
{
    let raw = match parse_amount(b.amount.as_str()) {
        Ok(a) => a as i128,
        Err(e) => {
            return Err(e);
        },
    };
    if b.dc_mark == 'C' {
        Ok(raw)
    } else if b.dc_mark == 'D' {
        Ok(-raw)
    } else {
        let mut text = chars_of("unknown ");
        push_str(&mut text, which);
        push_str(&mut text, " balance direction: ");
        text.push(b.dc_mark);
        Err(ParseError::InvalidAmount(string_of(text.as_slice())))
    }
}

impl Statement {
    /// The statement that an MT940 message stands for.
    #[verifier::loop_isolation(false)]
    pub fn from_mt940_message(message: Mt940Message) -> (r: Result<Statement, ParseError>)
        ensures
            statement_outcome(r, statement_of(message@)),
            r matches Ok(s) ==> s@.period_ordered(),
            r matches Ok(s) ==> s.opening_balance matches Some(b) && (message.opening_balance.dc_mark
                == 'C' ==> b >= 0) && (message.opening_balance.dc_mark == 'D' ==> b <= 0),
            r matches Ok(s) ==> (message.closing_balance matches Some(c) ==> s.closing_balance
                matches Some(b) && (c.dc_mark == 'C' ==> b >= 0) && (c.dc_mark == 'D' ==> b <= 0)),
    {
        let ghost m = message@;
        let currency = parse_currency(message.opening_balance.currency.as_str());
        let opening = match signed_balance(&message.opening_balance, "opening") {
            Ok(v) => v,
            Err(e) => {
                return Err(e);
            },
        };
        let closing_balance = match &message.closing_balance {
            Some(cb) => match signed_balance(cb, "closing") {
                Ok(v) => Some(v),
                Err(e) => {
                    return Err(e);
                },
            },
            None => None,
        };
        let period_from = match parse_mt940_yy_mm_dd(message.opening_balance.date.as_str()) {
            Ok(d) => d,
            Err(e) => {
                return Err(e);
            },
        };
        let mut transactions: Vec<Transaction> = Vec::new();
        let mut latest = period_from;
        let mut i: usize = 0;
        assert(transaction_views(transactions@) =~= Seq::<TransactionView>::empty());
        while i < message.entries.len()
            invariant
                i <= message.entries.len(),
                m == message@,
                transactions_of(m.entries, i as int) == Ok::<Seq<TransactionView>, ErrorKind>(
                    transaction_views(transactions@),
                ),
                transactions@.len() == i,
                latest@ == latest_booking(transaction_views(transactions@), i as int, period_from@),
            decreases message.entries.len() - i,
        {
            assert(m.entries[i as int] == message.entries@[i as int]@);
            let tx = match Transaction::from_mt940_entry(&message.entries[i]) {
                Ok(t) => t,
                Err(e) => {
                    proof {
                        assert(transactions_of(m.entries, i + 1) == Err::<
                            Seq<TransactionView>,
                            ErrorKind,
                        >(e.kind()));
                        lemma_transactions_fail(m.entries, i + 1, m.entries.len() as int);
                    }
                    return Err(e);
                },
            };
            let ghost before = transaction_views(transactions@);
            latest = if i == 0 {
                tx.booking_date
            } else {
                latest.max(tx.booking_date)
            };
            transactions.push(tx);
            proof {
                let after = transaction_views(transactions@);
                assert(after =~= before.push(tx@));
                lemma_latest_prefix(before, after, i as int, period_from@);
            }
            i += 1;
        }
        let period_until = match &message.closing_balance {
            Some(cb) => match parse_mt940_yy_mm_dd(cb.date.as_str()) {
                Ok(d) => d,
                Err(e) => {
                    return Err(e);
                },
            },
            None => latest,
        };
        let statement = Statement::new(
            message.account_id,
            None,
            currency,
            Some(opening),
            closing_balance,
            transactions,
            period_from,
            period_until,
        );
        if !statement.has_ordered_period() {
            return Err(ParseError::BadInput("the statement period ends before it begins".to_string()));
        }
        Ok(statement)
    }
}

/// Once a prefix of the entries fails, every longer prefix fails alike.
pub proof fn lemma_transactions_fail(entries: Seq<EntryView>, n: int, m: int)
    requires
        0 <= n <= m,
        transactions_of(entries, n) is Err,
    ensures
        transactions_of(entries, m) == transactions_of(entries, n),
    decreases m - n,
{
    if n < m {
        lemma_transactions_fail(entries, n, m - 1);
    }
}

/// The two ways in which a message's text block can be delimited.
#[derive(Clone, Copy, Debug, PartialEq, Eq, Structural)]
pub enum BlockKind {
    /// `{4:` to `-}`.
    Curly,
    /// `(4:` to `-)`.
    Paren,
}

impl BlockKind {
    /// What opens a text block.
    pub open spec fn opener(self) -> Seq<char> {
        match self {
            BlockKind::Curly => "{4:"@,
            BlockKind::Paren => "(4:"@,
        }
    }

    /// Whether a line, once trimmed, closes a text block.
    pub open spec fn closes(self, trimmed: Seq<char>) -> bool {
        match self {
            BlockKind::Curly => starts_with(trimmed, "-}"@) || starts_with(trimmed, "}"@),
            BlockKind::Paren => starts_with(trimmed, "-)"@) || starts_with(trimmed, ")"@),
        }
    }
}

/// Where the framing of the input stands after some of its lines.
pub struct Framing {
    /// The delimiters in use, once the first block has opened.
    pub kind: Option<BlockKind>,
    /// Whether a text block is open.
    pub in_block: bool,
    /// The lines of the open block.
    pub body: Seq<Seq<char>>,
    /// The first message that was read.
    pub first: Option<MessageView>,
    /// How many messages were read.
    pub count: nat,
    /// The tag lines that were passed over in the messages that were read,
    /// in their order.
    pub skipped: Seq<Seq<char>>,
}

impl Framing {
    /// Nothing read yet.
    pub open spec fn start() -> Framing {
        Framing {
            kind: None,
            in_block: false,
            body: Seq::empty(),
            first: None,
            count: 0,
            skipped: Seq::empty(),
        }
    }

    /// A block of the given kind opens; `after` is what follows the opener
    /// on its line, which belongs to the block unless it is blank.
    pub open spec fn open_block(self, kind: BlockKind, after: Seq<char>) -> Framing {
        Framing {
            kind: Some(kind),
            in_block: true,
            body: if is_blank(after) {
                self.body
            } else {
                self.body.push(after)
            },
            ..self
        }
    }

    /// The open block ends and its lines are read as one message.
    pub open spec fn close_block(self) -> Result<Framing, ErrorKind> {
        match message_of(self.body) {
            Err(k) => Err(k),
            Ok(m) => Ok(
                Framing {
                    in_block: false,
                    body: Seq::empty(),
                    first: if self.first is None {
                        Some(m)
                    } else {
                        self.first
                    },
                    count: self.count + 1,
                    skipped: self.skipped + skipped_of(self.body),
                    ..self
                },
            ),
        }
    }

    /// The framing after one more line.
    ///
    /// Blank lines are skipped. Outside a block a line counts only if it
    /// holds an opener: the first opener that occurs fixes the kind of
    /// delimiters, curly before round where both begin at one place. Inside
    /// a block a line that begins with the closer ends the block; any other
    /// line belongs to it.
    pub open spec fn read(self, line: Seq<char>) -> Result<Framing, ErrorKind> {
        if is_blank(line) {
            Ok(self)
        } else if !self.in_block {
            match self.kind {
                Some(k) => match find(line, k.opener()) {
                    Some(pos) => Ok(self.open_block(k, line.skip(pos + 3))),
                    None => Ok(self),
                },
                None => match (find(line, "{4:"@), find(line, "(4:"@)) {
                    (Some(pc), Some(pp)) => if pc <= pp {
                        Ok(self.open_block(BlockKind::Curly, line.skip(pc + 3)))
                    } else {
                        Ok(self.open_block(BlockKind::Paren, line.skip(pp + 3)))
                    },
                    (Some(pc), None) => Ok(self.open_block(BlockKind::Curly, line.skip(pc + 3))),
                    (None, Some(pp)) => Ok(self.open_block(BlockKind::Paren, line.skip(pp + 3))),
                    (None, None) => Ok(self),
                },
            }
        } else {
            match self.kind {
                Some(k) => if k.closes(trim(line)) {
                    self.close_block()
                } else {
                    Ok(Framing { body: self.body.push(line), ..self })
                },
                None => Ok(self),
            }
        }
    }

    /// The framing after the lines from `from` on.
    pub open spec fn read_all(self, lines: Seq<Seq<char>>, from: int) -> Result<Framing, ErrorKind>
        decreases lines.len() - from,
    {
        if from < 0 || from >= lines.len() {
            Ok(self)
        } else {
            match self.read(lines[from]) {
                Err(k) => Err(k),
                Ok(next) => next.read_all(lines, from + 1),
            }
        }
    }

    /// The framing at the end of the input: a block that is still open
    /// counts as a message if it holds any line.
    pub open spec fn finish(self) -> Result<Framing, ErrorKind> {
        if self.in_block && self.body.len() > 0 {
            self.close_block()
        } else {
            Ok(self)
        }
    }
}

/// The tag lines that are passed over in the messages of an input, in
/// their order.
pub open spec fn skipped_tags_of(text: Seq<char>) -> Seq<Seq<char>> {
    match Framing::start().read_all(lines(text), 0) {
        Err(_) => Seq::empty(),
        Ok(f) => match f.finish() {
            Err(_) => Seq::empty(),
            Ok(end) => end.skipped,
        },
    }
}

/// The first message of an input and the number of messages in it. Every
/// message must be well-formed, and there must be at least one.
pub open spec fn first_message_of(text: Seq<char>) -> Result<(MessageView, nat), ErrorKind> {
    match Framing::start().read_all(lines(text), 0) {
        Err(k) => Err(k),
        Ok(f) => match f.finish() {
            Err(k) => Err(k),
            Ok(end) => match end.first {
                Some(m) => Ok((m, end.count)),
                None => Err(ErrorKind::BadInput),
            },
        },
    }
}

struct Frame {
    kind: Option<BlockKind>,
    in_block: bool,
    body: Vec<String>,
    first: Option<Mt940Message>,
    count: usize,
    skipped: Vec<String>,
}

/// What an optional message stands for.
pub open spec fn message_view(o: Option<Mt940Message>) -> Option<MessageView> {
    match o {
        Some(m) => Some(m@),
        None => None,
    }
}

impl View for Frame {
    type V = Framing;

    closed spec fn view(&self) -> Framing {
        Framing {
            kind: self.kind,
            in_block: self.in_block,
            body: string_views(self.body@),
            first: message_view(self.first),
            count: self.count as nat,
            skipped: string_views(self.skipped@),
        }
    }
}

impl Frame {
    fn open_block(&mut self, kind: BlockKind, line: &[char], pos: usize)
        requires
            pos + 3 <= line.len(),
        ensures
            final(self)@ == old(self)@.open_block(kind, line@.skip(pos + 3)),
            final(self).count == old(self).count,
            final(self).body@.len() <= old(self).body@.len() + 1,
    {
        let after = vstd::slice::slice_subrange(line, pos + 3, line.len());
        self.kind = Some(kind);
        self.in_block = true;
        if !blank(after) {
            let ghost before = self.body@;
            self.body.push(string_of(after));
            assert(string_views(self.body@) =~= string_views(before).push(after@));
        }
    }

    fn close_block(&mut self) -> (r: Result<(), ParseError>)
        requires
            old(self).count < usize::MAX,
        ensures
            match r {
                Ok(_) => old(self)@.close_block() == Ok::<Framing, ErrorKind>(final(self)@),
                Err(e) => old(self)@.close_block() == Err::<Framing, ErrorKind>(e.kind()),
            },
            r is Ok ==> final(self).count == old(self).count + 1 && final(self).body@.len() == 0,
    {
        let (msg, mut skipped) = match Mt940Message::from_string_lines_noting(
            self.body.as_slice(),
        ) {
            Ok(read) => read,
            Err(e) => {
                return Err(e);
            },
        };
        let ghost before = self.skipped@;
        let ghost more = skipped@;
        self.skipped.append(&mut skipped);
        assert(string_views(self.skipped@) =~= string_views(before) + string_views(more));
        if self.first.is_none() {
            self.first = Some(msg);
        }
        self.count = self.count + 1;
        self.body = Vec::new();
        self.in_block = false;
        assert(string_views(self.body@) =~= Seq::<Seq<char>>::empty());
        Ok(())
    }

    fn read(&mut self, line: &[char]) -> (r: Result<(), ParseError>)
        requires
            old(self).count < usize::MAX,
        ensures
            match r {
                Ok(_) => old(self)@.read(line@) == Ok::<Framing, ErrorKind>(final(self)@),
                Err(e) => old(self)@.read(line@) == Err::<Framing, ErrorKind>(e.kind()),
            },
            r is Ok ==> final(self).count + final(self).body@.len() <= old(self).count + old(
                self,
            ).body@.len() + 1,
    {
        proof {
            reveal_strlit("{4:");
            reveal_strlit("(4:");
        }
        if blank(line) {
            return Ok(());
        }
        if !self.in_block {
            let curly = chars_of("{4:");
            let paren = chars_of("(4:");
            match self.kind {
                Some(BlockKind::Curly) => {
                    if let Some(pos) = find_in(line, curly.as_slice()) {
                        self.open_block(BlockKind::Curly, line, pos);
                    }
                },
                Some(BlockKind::Paren) => {
                    if let Some(pos) = find_in(line, paren.as_slice()) {
                        self.open_block(BlockKind::Paren, line, pos);
                    }
                },
                None => {
                    let pc = find_in(line, curly.as_slice());
                    let pp = find_in(line, paren.as_slice());
                    match (pc, pp) {
                        (Some(c), Some(p)) => {
                            if c <= p {
                                self.open_block(BlockKind::Curly, line, c);
                            } else {
                                self.open_block(BlockKind::Paren, line, p);
                            }
                        },
                        (Some(c), None) => {
                            self.open_block(BlockKind::Curly, line, c);
                        },
                        (None, Some(p)) => {
                            self.open_block(BlockKind::Paren, line, p);
                        },
                        (None, None) => {},
                    }
                },
            }
            return Ok(());
        }
        let trimmed = trim_of(line);
        let closes = match self.kind {
            Some(BlockKind::Curly) => has_prefix(trimmed, chars_of("-}").as_slice()) || has_prefix(
                trimmed,
                chars_of("}").as_slice(),
            ),
            Some(BlockKind::Paren) => has_prefix(trimmed, chars_of("-)").as_slice()) || has_prefix(
                trimmed,
                chars_of(")").as_slice(),
            ),
            None => {
                return Ok(());
            },
        };
        if closes {
            return self.close_block();
        }
        let ghost before = self.body@;
        self.body.push(string_of(line));
        assert(string_views(self.body@) =~= string_views(before).push(line@));
        Ok(())
    }
}

/// The first statement message of an input.
#[derive(Debug, Clone)]
pub struct Mt940Data {
    pub message: Mt940Message,
}

impl Mt940Data {
    /// Reads the first message of an MT940 text, and says how many messages
    /// the text holds, and which tag lines were passed over in them: those
    /// with a tag that is not known, and those of an opening balance after
    /// the first of a message.
    #[verifier::loop_isolation(false)]
    pub fn parse_noting(text: &str) -> (r: Result<(Mt940Data, usize, Vec<String>), ParseError>)
        ensures
            match r {
                Ok((data, count, skipped)) => first_message_of(text@) == Ok::<
                    (MessageView, nat),
                    ErrorKind,
                >((data.message@, count as nat)) && string_views(skipped@) == skipped_tags_of(
                    text@,
                ),
                Err(e) => first_message_of(text@) == Err::<(MessageView, nat), ErrorKind>(e.kind()),
            },
    {
        let chars = chars_of(text);
        let all = split_lines(chars.as_slice());
        let mut frame = Frame {
            kind: None,
            in_block: false,
            body: Vec::new(),
            first: None,
            count: 0,
            skipped: Vec::new(),
        };
        let ghost texts = lines(text@);
        assert(string_views(frame.body@) =~= Seq::<Seq<char>>::empty());
        assert(string_views(frame.skipped@) =~= Seq::<Seq<char>>::empty());
        assert(frame@ =~= Framing::start());
        let mut i: usize = 0;
        while i < all.len()
            invariant
                i <= all.len(),
                frame.count + frame.body@.len() <= i,
                views(all@) == texts,
                Framing::start().read_all(texts, 0) == frame@.read_all(texts, i as int),
            decreases all.len() - i,
        {
            assert(texts[i as int] == all@[i as int]@);
            match frame.read(all[i].as_slice()) {
                Ok(_) => {},
                Err(e) => {
                    return Err(e);
                },
            }
            i += 1;
        }
        if frame.in_block && frame.body.len() > 0 {
            match frame.close_block() {
                Ok(_) => {},
                Err(e) => {
                    return Err(e);
                },
            }
        }
        match frame.first {
            Some(message) => Ok((Mt940Data { message }, frame.count, frame.skipped)),
            None => Err(ParseError::BadInput("0 mt940 messages detected".to_string())),
        }
    }

    /// Reads the first message of an MT940 text, and says how many messages
    /// the text holds.
    pub fn parse_counting(text: &str) -> (r: Result<(Mt940Data, usize), ParseError>)
        ensures
            match r {
                Ok((data, count)) => first_message_of(text@) == Ok::<(MessageView, nat), ErrorKind>(
                    (data.message@, count as nat),
                ),
                Err(e) => first_message_of(text@) == Err::<(MessageView, nat), ErrorKind>(e.kind()),
            },
    {
        match Mt940Data::parse_noting(text) {
            Ok((data, count, _)) => Ok((data, count)),
            Err(e) => Err(e),
        }
    }

    /// Reads the first message of an MT940 text; further messages must be
    /// well-formed and are otherwise ignored.
    pub fn parse(text: &str) -> (r: Result<Mt940Data, ParseError>)
        ensures
            match r {
                Ok(data) => first_message_of(text@) matches Ok((m, _)) && m == data.message@,
                Err(e) => first_message_of(text@) == Err::<(MessageView, nat), ErrorKind>(e.kind()),
            },
    {
        match Mt940Data::parse_counting(text) {
            Ok((data, _)) => Ok(data),
            Err(e) => Err(e),
        }
    }
}

impl<'a> TryFrom<&'a Mt940Entry> for Transaction {
    type Error = ParseError;

    /// The transaction that an MT940 entry stands for.
    fn try_from(entry: &'a Mt940Entry) -> (r: Result<Self, ParseError>)
        ensures
            transaction_outcome(r, transaction_of(entry@)),
    {
        Transaction::from_mt940_entry(entry)
    }
}

impl TryFrom<Mt940Message> for Statement {
    type Error = ParseError;

    /// The statement that an MT940 message stands for.
    fn try_from(message: Mt940Message) -> (r: Result<Self, ParseError>)
        ensures
            statement_outcome(r, statement_of(message@)),
            r matches Ok(s) ==> s@.period_ordered(),
    {
        Statement::from_mt940_message(message)
    }
}

impl TryFrom<Mt940Data> for Statement {
    type Error = ParseError;

    /// The statement that the message of an MT940 input stands for.
    fn try_from(data: Mt940Data) -> (r: Result<Self, ParseError>)
        ensures
            statement_outcome(r, statement_of(data.message@)),
    {
        Statement::from_mt940_message(data.message)
    }
}

/// The conversion is stated by the `ensures` of `try_from`, over kinds of
/// error; no spec function gives its result to the letter.
impl<'a> vstd::std_specs::convert::TryFromSpecImpl<&'a Mt940Entry> for Transaction {
    open spec fn obeys_try_from_spec() -> bool {
        false
    }

    open spec fn try_from_spec(v: &'a Mt940Entry) -> Result<Self, ParseError> {
        arbitrary()
    }
}

impl vstd::std_specs::convert::TryFromSpecImpl<Mt940Message> for Statement {
    open spec fn obeys_try_from_spec() -> bool {
        false
    }

    open spec fn try_from_spec(v: Mt940Message) -> Result<Self, ParseError> {
        arbitrary()
    }
}

impl vstd::std_specs::convert::TryFromSpecImpl<Mt940Data> for Statement {
    open spec fn obeys_try_from_spec() -> bool {
        false
    }

    open spec fn try_from_spec(v: Mt940Data) -> Result<Self, ParseError> {
        arbitrary()
    }
}

} // verus!
