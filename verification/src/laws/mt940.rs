//! A statement that is written as an MT940 message is read back.

use crate::date::{valid_ymd, ymd_le};
use crate::error::ErrorKind;
use crate::laws::{
    dates_fit_mt940, law_balance_round_trip, law_currency_round_trip, law_entry_round_trip,
    lemma_amount_text_shape, lemma_entry_of_line_61, written_value_date,
};
use crate::model::{latest_booking, Balance, StatementView, TransactionView};
use crate::mt940::utils::{
    counterparty_in_lines, detail_text, first_iban_line, first_iban_token, first_named_line,
    iban_and_name_in, iban_and_name_in_lines, iban_in, iban_of, iban_pattern, in_capitals,
    name_line, party_text, regex_matches, tag_line_of, yymmdd_date,
};
use crate::mt940::{
    balance_of, counterparty_of, description_of, description_parts, detail_texts, entry_of,
    first_message_of, message_of, statement_of, transaction_of, transactions_of, BalanceView,
    BlockKind, EntryView, Framing, MessageDraft, MessageView,
};
use crate::number::{is_digit, pad2, parse_digits};
use crate::serialization::common::minor_units_text;
use crate::serialization::mt940_helpers::{
    balance_text, currency_code_text, entries_lines, entry_lines, line_61, line_86, mark_of,
    mt940_body, mt940_lines, mt940_text, written_opening,
};
use crate::text::{
    find, is_blank, is_whitespace, is_word, join, lemma_find_is, lemma_find_none,
    lemma_lines_unlines, lemma_run_end, lemma_run_start, lemma_tokens_behind_word,
    lemma_trim_idempotent, lemma_trim_identity, lines, occurs_at, starts_with, strip_end, tokens,
    trim, trim_start, CharClass,
};
use vstd::prelude::*;

verus! {

/// A tag line: colon, tag, colon, value.
pub open spec fn tag_line(tag: Seq<char>, value: Seq<char>) -> Seq<char> {
    seq![':'] + tag + seq![':'] + value
}

/// Whether a text can stand as the value of a tag line and be read back
/// as it is: it holds no line feed and does not end in a carriage return.
pub open spec fn fits_line(value: Seq<char>) -> bool {
    &&& forall|i: int| 0 <= i < value.len() ==> value[i] != '\n'
    &&& value.len() > 0 ==> value.last() != '\r'
}

/// Whether a text is a tag as the writer uses them: letters and digits.
pub open spec fn plain_tag(tag: Seq<char>) -> bool {
    &&& tag.len() > 0
    &&& forall|i: int| 0 <= i < tag.len() ==> tag[i] != ':' && !is_whitespace(#[trigger] tag[i])
}

/// A written tag line is taken as it stands, and splits into its tag and
/// its value.
pub proof fn lemma_tag_line(tag: Seq<char>, value: Seq<char>)
    requires
        plain_tag(tag),
        value.len() > 0 ==> value.last() != '\r',
    ensures
        ({
            let raw = tag_line(tag, value);
            &&& raw.len() > 0
            &&& raw[0] == ':'
            &&& !is_blank(raw)
            &&& trim(raw)[0] == ':'
            &&& trim(raw).len() > 0
            &&& trim_start(strip_end(raw, CharClass::Only('\r'))) == raw
            &&& starts_with(raw, ":"@)
            &&& tag_line_of(raw) == Ok::<(Seq<char>, Seq<char>), ErrorKind>((tag, value))
        }),
{
    reveal_strlit(":");
    let raw = tag_line(tag, value);
    let n = tag.len() as int;
    assert(raw[0] == ':');
    assert(raw[n + 1] == ':');
    assert(raw.last() != '\r') by {
        if value.len() > 0 {
            assert(raw.last() == value.last());
        } else {
            assert(raw.last() == ':');
        }
    }
    lemma_run_start(raw, CharClass::Only('\r'), raw.len() as int, raw.len() as int);
    assert(raw.take(raw.len() as int) =~= raw);
    lemma_run_end(raw, CharClass::Whitespace, 0, 0);
    assert(raw.skip(0) =~= raw);
    assert(raw.subrange(0, 1) =~= ":"@);
    assert forall|i: int| 1 <= i < n + 1 implies CharClass::Except(':').has(#[trigger] raw[i]) by {
        assert(raw[i] == tag[i - 1]);
    }
    lemma_run_end(raw, CharClass::Except(':'), 1, n + 1);
    assert(raw.subrange(1, n + 1) =~= tag);
    assert(!is_whitespace(tag[0]));
    assert(!is_whitespace(tag[n - 1]));
    lemma_trim_identity(tag);
    assert(raw.skip(n + 2) =~= value);
    crate::text::lemma_run_end_props(raw, CharClass::Whitespace, 0);
    let t = trim_start(raw);
    assert(t == raw);
    crate::text::lemma_run_start_props(raw, CharClass::Whitespace, raw.len() as int);
    let b = crate::text::run_start(raw, CharClass::Whitespace, raw.len() as int);
    assert(b > 0) by {
        if b == 0 {
            assert(CharClass::Whitespace.has(raw[0]));
        }
    }
    assert(trim(raw) == raw.take(b));
    assert(trim(raw)[0] == raw[0]);
}

/// The tags that the writer uses are plain, and no two of the tags that
/// the reader knows are the same.
pub proof fn lemma_tags()
    ensures
        plain_tag("20"@),
        plain_tag("25"@),
        plain_tag("28C"@),
        plain_tag("60F"@),
        plain_tag("61"@),
        plain_tag("86"@),
        plain_tag("62F"@),
        "25"@ != "20"@,
        "28C"@ != "20"@ && "28C"@ != "25"@,
        "60F"@ != "20"@ && "60F"@ != "25"@ && "60F"@ != "28C"@,
        "62F"@ != "20"@ && "62F"@ != "25"@ && "62F"@ != "28C"@ && "62F"@ != "60F"@ && "62F"@
            != "60M"@,
        "61"@ != "20"@ && "61"@ != "25"@ && "61"@ != "28C"@ && "61"@ != "60F"@ && "61"@ != "60M"@
            && "61"@ != "62F"@ && "61"@ != "62M"@ && "61"@ != "64"@,
        "86"@ != "20"@ && "86"@ != "25"@ && "86"@ != "28C"@ && "86"@ != "60F"@ && "86"@ != "60M"@
            && "86"@ != "62F"@ && "86"@ != "62M"@ && "86"@ != "64"@ && "86"@ != "61"@,
        ":20:SERIALIZED"@ == tag_line("20"@, "SERIALIZED"@),
        ":28C:1/1"@ == tag_line("28C"@, "1/1"@),
        "SERIALIZED"@.len() == 10 && "SERIALIZED"@.last() == 'D',
        "1/1"@.len() == 3 && "1/1"@.last() == '1',
        forall|v: Seq<char>| #[trigger] (":25:"@ + v) == tag_line("25"@, v),
        forall|v: Seq<char>| #[trigger] (":60F:"@ + v) == tag_line("60F"@, v),
        forall|v: Seq<char>| #[trigger] (":61:"@ + v) == tag_line("61"@, v),
        forall|v: Seq<char>| #[trigger] (":86:"@ + v) == tag_line("86"@, v),
        forall|v: Seq<char>| #[trigger] (":62F:"@ + v) == tag_line("62F"@, v),
{
    reveal_strlit("20");
    reveal_strlit("25");
    reveal_strlit("28C");
    reveal_strlit("60F");
    reveal_strlit("60M");
    reveal_strlit("62F");
    reveal_strlit("62M");
    reveal_strlit("64");
    reveal_strlit("61");
    reveal_strlit("86");
    reveal_strlit(":20:SERIALIZED");
    reveal_strlit("SERIALIZED");
    reveal_strlit(":28C:1/1");
    reveal_strlit("1/1");
    reveal_strlit(":25:");
    reveal_strlit(":60F:");
    reveal_strlit(":61:");
    reveal_strlit(":86:");
    reveal_strlit(":62F:");
    assert("25"@[1] != "20"@[1]);
    assert("28C"@.len() != "20"@.len());
    assert("60F"@[0] != "28C"@[0]);
    assert("62F"@[1] != "60F"@[1] && "62F"@[1] != "60M"@[1] && "62F"@[0] != "28C"@[0]);
    assert("61"@[1] != "20"@[1] && "61"@[0] != "25"@[0] && "61"@[1] != "64"@[1]);
    assert("86"@[0] != "20"@[0] && "86"@[0] != "64"@[0] && "86"@[0] != "61"@[0]);
    assert(":20:SERIALIZED"@ =~= tag_line("20"@, "SERIALIZED"@));
    assert(":28C:1/1"@ =~= tag_line("28C"@, "1/1"@));
    assert forall|v: Seq<char>| #[trigger] (":25:"@ + v) == tag_line("25"@, v) by {
        assert(":25:"@ + v =~= tag_line("25"@, v));
    }
    assert forall|v: Seq<char>| #[trigger] (":60F:"@ + v) == tag_line("60F"@, v) by {
        assert(":60F:"@ + v =~= tag_line("60F"@, v));
    }
    assert forall|v: Seq<char>| #[trigger] (":61:"@ + v) == tag_line("61"@, v) by {
        assert(":61:"@ + v =~= tag_line("61"@, v));
    }
    assert forall|v: Seq<char>| #[trigger] (":86:"@ + v) == tag_line("86"@, v) by {
        assert(":86:"@ + v =~= tag_line("86"@, v));
    }
    assert forall|v: Seq<char>| #[trigger] (":62F:"@ + v) == tag_line("62F"@, v) by {
        assert(":62F:"@ + v =~= tag_line("62F"@, v));
    }
}

/// Reading a list of lines from an index behind some other lines is
/// reading the list alone.
pub proof fn lemma_read_all_shift(d: MessageDraft, a: Seq<Seq<char>>, b: Seq<Seq<char>>, j: int)
    requires
        0 <= j,
    ensures
        d.read_all(a + b, a.len() + j) == d.read_all(b, j),
    decreases b.len() - j,
{
    if j < b.len() {
        assert((a + b)[a.len() + j] == b[j]);
        match d.read(b[j]) {
            Ok(next) => lemma_read_all_shift(next, a, b, j + 1),
            Err(_) => {},
        }
    }
}

/// Reading two lists of lines one after the other is reading the first
/// and then, from where that ends, the second.
pub proof fn lemma_read_all_split(d: MessageDraft, a: Seq<Seq<char>>, b: Seq<Seq<char>>, i: int)
    requires
        0 <= i <= a.len(),
    ensures
        d.read_all(a + b, i) == match d.read_all(a, i) {
            Ok(mid) => mid.read_all(b, 0),
            Err(k) => Err(k),
        },
    decreases a.len() - i,
{
    if i < a.len() {
        assert((a + b)[i] == a[i]);
        match d.read(a[i]) {
            Ok(next) => lemma_read_all_split(next, a, b, i + 1),
            Err(_) => {},
        }
    } else {
        lemma_read_all_shift(d, a, b, 0);
    }
}

/// The entry that the written lines of a transaction are read as.
pub open spec fn read_entry(tx: TransactionView) -> EntryView {
    EntryView {
        info: match line_86(tx) {
            Some(info) => seq![info],
            None => Seq::empty(),
        },
        ..entry_of(line_61(tx), ":61:"@ + line_61(tx))->Ok_0
    }
}

/// The entries that the written lines of the first `n` transactions are
/// read as.
pub open spec fn read_entries(txs: Seq<TransactionView>, n: int) -> Seq<EntryView> {
    Seq::new(n as nat, |i: int| read_entry(txs[i]))
}

/// Whether a transaction survives an MT940 message: its dates fit, and its
/// free text stays on one line.
pub open spec fn fits_mt940(tx: TransactionView) -> bool {
    &&& dates_fit_mt940(tx)
    &&& line_86(tx) matches Some(info) ==> forall|j: int| 0 <= j < info.len() ==> info[j] != '\n'
}

/// The written `:61:` line ends in a digit.
pub proof fn lemma_line_61_end(tx: TransactionView)
    ensures
        line_61(tx).len() > 0,
        is_digit(line_61(tx).last()),
        forall|j: int| 0 <= j < line_61(tx).len() ==> line_61(tx)[j] != '\n',
{
    let vd = written_value_date(tx);
    let m = minor_units_text(tx.amount as int, ',');
    let text = line_61(tx);
    lemma_amount_text_shape(tx.amount as nat, ',');
    assert(text.last() == m[m.len() - 1]);
    let a = pad2((vd.0 % 100) as nat) + pad2(vd.1 as nat) + pad2(vd.2 as nat) + pad2(
        tx.booking_date.1 as nat,
    ) + pad2(tx.booking_date.2 as nat);
    assert(text =~= a + seq![mark_of(tx.direction)] + m);
    lemma_pad2_plain((vd.0 % 100) as nat);
    lemma_pad2_plain(vd.1 as nat);
    lemma_pad2_plain(vd.2 as nat);
    lemma_pad2_plain(tx.booking_date.1 as nat);
    lemma_pad2_plain(tx.booking_date.2 as nat);
    assert forall|j: int| 0 <= j < text.len() implies text[j] != '\n' by {
        if j < a.len() {
            assert(text[j] == a[j]);
        } else if j == a.len() {
        } else {
            assert(text[j] == m[j - a.len() - 1]);
            if j - a.len() - 1 != m.len() - 3 {
                assert(is_digit(m[j - a.len() - 1]));
            }
        }
    }
}

/// Two-digit writing holds digits only.
pub proof fn lemma_pad2_plain(n: nat)
    ensures
        forall|j: int| 0 <= j < pad2(n).len() ==> is_digit(#[trigger] pad2(n)[j]),
        pad2(n).len() >= 2,
{
    crate::number::lemma_decimal_digits(n);
    crate::number::lemma_digit_char(if n < 10 {
        n as int
    } else {
        0
    });
    if n >= 10 {
        lemma_decimal_len(n);
    }
}

/// A number of two digits or more is written with two characters or more.
pub proof fn lemma_decimal_len(n: nat)
    requires
        n >= 10,
    ensures
        crate::number::decimal(n).len() >= 2,
{
    crate::number::lemma_decimal_digits(n / 10);
}

/// The lines of a transaction are read as its entry, which stays open for
/// more free text; the entry that was open before it is closed.
pub proof fn lemma_read_entry_lines(d: MessageDraft, tx: TransactionView)
    requires
        fits_mt940(tx),
    ensures
        d.read_all(entry_lines(tx), 0) == Ok::<MessageDraft, ErrorKind>(
            MessageDraft { entries: d.all_entries(), open_entry: Some(read_entry(tx)), ..d },
        ),
{
    lemma_tags();
    let l61 = line_61(tx);
    let raw = ":61:"@ + l61;
    lemma_line_61_end(tx);
    assert(l61.last() != '\r');
    lemma_tag_line("61"@, l61);
    lemma_entry_of_line_61(tx, raw);
    let e = entry_of(l61, raw)->Ok_0;
    let d1 = MessageDraft { entries: d.all_entries(), open_entry: Some(e), ..d };
    assert(d.read(raw) == Ok::<MessageDraft, ErrorKind>(d1));
    reveal_with_fuel(MessageDraft::read_all, 4);
    match line_86(tx) {
        Some(info) => {
            let full_info = ":86:"@ + info;
            lemma_line_86_trimmed(tx);
            lemma_tag_line("86"@, info);
            assert(d1.read(full_info) == Ok::<MessageDraft, ErrorKind>(d1.with_info(info)));
            assert(e.info.push(info) =~= seq![info]);
            assert(entry_lines(tx) =~= seq![raw, full_info]);
        },
        None => {
            assert(entry_lines(tx) =~= seq![raw]);
            assert(e.info =~= Seq::<Seq<char>>::empty());
        },
    }
}

/// The free text that is written for a transaction is trimmed: it neither
/// begins nor ends with white space, and trimming leaves it alone.
pub proof fn lemma_line_86_trimmed(tx: TransactionView)
    ensures
        line_86(tx) matches Some(info) ==> info.len() > 0 && trim(info) == info && info.last()
            != '\r',
{
    let account = match tx.counterparty {
        Some(c) => trim(c),
        None => Seq::empty(),
    };
    let name = match tx.counterparty_name {
        Some(n) => trim(n),
        None => Seq::empty(),
    };
    let base = if account.len() > 0 && name.len() > 0 {
        account + " "@ + name
    } else if account.len() > 0 {
        account
    } else {
        name
    };
    let description = trim(tx.description);
    let full = if description.len() == 0 {
        base
    } else if base.len() > 0 {
        base + " // "@ + description
    } else {
        description
    };
    lemma_trim_idempotent(full);
    crate::text::lemma_trim_ends(full);
}

/// The lines of the first `n` transactions are read as their entries, of
/// which the last stays open.
pub proof fn lemma_read_entries(d: MessageDraft, txs: Seq<TransactionView>, n: int)
    requires
        0 <= n <= txs.len(),
        forall|i: int| 0 <= i < n ==> fits_mt940(#[trigger] txs[i]),
    ensures
        d.read_all(entries_lines(txs, n), 0) == Ok::<MessageDraft, ErrorKind>(
            if n == 0 {
                d
            } else {
                MessageDraft {
                    entries: d.all_entries() + read_entries(txs, n - 1),
                    open_entry: Some(read_entry(txs[n - 1])),
                    ..d
                }
            },
        ),
    decreases n,
{
    if n > 0 {
        lemma_read_entries(d, txs, n - 1);
        let before = entries_lines(txs, n - 1);
        let mid = d.read_all(before, 0)->Ok_0;
        lemma_read_all_split(d, before, entry_lines(txs[n - 1]), 0);
        lemma_read_entry_lines(mid, txs[n - 1]);
        if n == 1 {
            assert(mid.all_entries() =~= d.all_entries() + read_entries(txs, 0));
        } else {
            assert(mid.all_entries() =~= d.all_entries() + read_entries(txs, n - 1)) by {
                assert(read_entries(txs, n - 2).push(read_entry(txs[n - 2])) =~= read_entries(
                    txs,
                    n - 1,
                ));
            }
        }
    }
}

/// Whether a balance survives an MT940 message: its magnitude fits 64
/// bits, and its date is a day between 1980 and 2079.
pub open spec fn balance_fits(balance: Balance, date: (int, int, int)) -> bool {
    &&& -(u64::MAX as int) <= balance <= u64::MAX as int
    &&& valid_ymd(date.0, date.1, date.2)
    &&& 1980 <= date.0 <= 2079
}

/// The day on which the period of a statement ends once it has been
/// written: the day it names where it has a closing balance, and otherwise
/// the latest booking date, or the day the period opens where nothing is
/// booked.
pub open spec fn written_until(s: StatementView) -> (int, int, int) {
    match s.closing_balance {
        Some(_) => s.period_until,
        None => latest_booking(s.transactions, s.transactions.len() as int, s.period_from),
    }
}

/// Whether a statement survives an MT940 message: the account stays on one
/// line, the balances and their dates fit, the period does not end before
/// it begins, and every transaction fits.
pub open spec fn fits_statement(s: StatementView) -> bool {
    &&& fits_line(s.account_id)
    &&& ymd_le(s.period_from, written_until(s))
    &&& balance_fits(written_opening(s), s.period_from)
    &&& s.closing_balance matches Some(b) ==> balance_fits(b, s.period_until)
    &&& forall|i: int| 0 <= i < s.transactions.len() ==> fits_mt940(#[trigger] s.transactions[i])
}

/// Whether the texts of a statement stay on one line each in an MT940
/// message: its account, and the free text of each transaction.
pub open spec fn texts_fit(s: StatementView) -> bool {
    &&& fits_line(s.account_id)
    &&& forall|i: int|
        0 <= i < s.transactions.len() ==> (line_86(#[trigger] s.transactions[i]) matches Some(info)
            ==> forall|j: int| 0 <= j < info.len() ==> info[j] != '\n')
}

/// Two digits stand for a number below 100.
pub proof fn lemma_two_digits(s: Seq<char>, max: int)
    requires
        s.len() == 2,
        parse_digits(s, max) is Ok,
    ensures
        0 <= parse_digits(s, max)->Ok_0 <= 99,
{
    reveal_with_fuel(crate::number::read_digits, 3);
}

/// A date that is read from six digits is a day between 1980 and 2079.
pub proof fn lemma_yymmdd_range(s: Seq<char>)
    requires
        yymmdd_date(s) is Ok,
    ensures
        ({
            let d = yymmdd_date(s)->Ok_0;
            valid_ymd(d.0, d.1, d.2) && 1980 <= d.0 <= 2079
        }),
{
    lemma_two_digits(s.subrange(0, 2), u32::MAX as int);
}

/// Where the first `n` entries stand for transactions, each of them does.
pub proof fn lemma_each_read_transaction(entries: Seq<EntryView>, n: int)
    requires
        0 <= n <= entries.len(),
        transactions_of(entries, n) is Ok,
    ensures
        transactions_of(entries, n)->Ok_0.len() == n,
        forall|i: int|
            0 <= i < n ==> transaction_of(#[trigger] entries[i]) == Ok::<
                TransactionView,
                ErrorKind,
            >(transactions_of(entries, n)->Ok_0[i]),
    decreases n,
{
    if n > 0 {
        lemma_each_read_transaction(entries, n - 1);
    }
}

/// A statement that is read from a message can be written as a message
/// again: its dates, its balances and its period fit, and where its texts
/// stay on one line each, all of it does.
pub proof fn law_read_statement_fits(m: MessageView)
    requires
        statement_of(m) is Ok,
    ensures
        ({
            let s = statement_of(m)->Ok_0;
            &&& balance_fits(written_opening(s), s.period_from)
            &&& s.closing_balance matches Some(b) ==> balance_fits(b, s.period_until)
            &&& ymd_le(s.period_from, written_until(s))
            &&& forall|i: int|
                0 <= i < s.transactions.len() ==> dates_fit_mt940(#[trigger] s.transactions[i])
                    && s.transactions[i].value_date is Some
            &&& texts_fit(s) ==> fits_statement(s)
        }),
{
    let s = statement_of(m)->Ok_0;
    let n = m.entries.len() as int;
    lemma_yymmdd_range(m.opening_balance.date);
    match m.closing_balance {
        Some(c) => {
            lemma_yymmdd_range(c.date);
        },
        None => {},
    }
    lemma_each_read_transaction(m.entries, n);
    assert forall|i: int| 0 <= i < s.transactions.len() implies dates_fit_mt940(
        #[trigger] s.transactions[i],
    ) && s.transactions[i].value_date is Some by {
        let e = m.entries[i];
        assert(transaction_of(e) == Ok::<TransactionView, ErrorKind>(s.transactions[i]));
        lemma_yymmdd_range(e.value_date);
    }
}

/// The balance that a written balance is read as.
pub open spec fn read_balance(balance: Balance, date: (int, int, int), code: Seq<char>)
    -> BalanceView {
    balance_of(balance_text(balance, date, code))->Ok_0
}

/// The message that the written body of a statement is read as.
pub open spec fn read_message(s: StatementView) -> MessageView {
    let code = currency_code_text(s.currency);
    MessageView {
        transaction_reference: Some("SERIALIZED"@),
        account_id: s.account_id,
        statement_number: Some("1/1"@),
        opening_balance: read_balance(written_opening(s), s.period_from, code),
        entries: read_entries(s.transactions, s.transactions.len() as int),
        closing_balance: match s.closing_balance {
            Some(b) => Some(read_balance(b, s.period_until, code)),
            None => None,
        },
        closing_available_balance: None,
    }
}

/// Every currency code has three characters, none of them a line feed.
pub proof fn lemma_code(s: StatementView)
    ensures
        currency_code_text(s.currency).len() == 3,
        forall|j: int| 0 <= j < 3 ==> currency_code_text(s.currency)[j] != '\n',
{
    reveal_strlit("RUB");
    reveal_strlit("EUR");
    reveal_strlit("USD");
    reveal_strlit("CNY");
    reveal_strlit("XXX");
}

/// A written balance holds no line feed and ends in a digit.
pub proof fn lemma_balance_text_plain(balance: Balance, date: (int, int, int), code: Seq<char>)
    requires
        code.len() == 3,
        forall|j: int| 0 <= j < 3 ==> code[j] != '\n',
    ensures
        fits_line(balance_text(balance, date, code)),
        balance_text(balance, date, code).len() > 0,
{
    let magnitude: nat = if balance < 0 {
        (-balance) as nat
    } else {
        balance as nat
    };
    let m = minor_units_text(balance as int, ',');
    lemma_amount_text_shape(magnitude, ',');
    assert(m == minor_units_text(magnitude as int, ','));
    let text = balance_text(balance, date, code);
    let y = pad2((date.0 % 100) as nat);
    let mo = pad2(date.1 as nat);
    let da = pad2(date.2 as nat);
    lemma_pad2_plain((date.0 % 100) as nat);
    lemma_pad2_plain(date.1 as nat);
    lemma_pad2_plain(date.2 as nat);
    let head = seq![if balance >= 0 {
        'C'
    } else {
        'D'
    }] + y + mo + da;
    assert(text =~= head + code + m);
    assert(text.last() == m[m.len() - 1]);
    assert forall|j: int| 0 <= j < text.len() implies text[j] != '\n' by {
        if j < head.len() {
            assert(text[j] == head[j]);
            if j >= 1 {
                if j - 1 < y.len() {
                    assert(head[j] == y[j - 1]);
                } else if j - 1 - y.len() < mo.len() {
                    assert(head[j] == mo[j - 1 - y.len()]);
                } else {
                    assert(head[j] == da[j - 1 - y.len() - mo.len()]);
                }
            }
        } else if j < head.len() + 3 {
            assert(text[j] == code[j - head.len()]);
        } else {
            let k = j - head.len() - 3;
            assert(text[j] == m[k]);
            if k != m.len() - 3 {
                assert(is_digit(m[k]));
            }
        }
    }
}

/// The reference line sets the reference.
pub proof fn lemma_read_reference(d: MessageDraft)
    ensures
        d.read(":20:SERIALIZED"@) == Ok::<MessageDraft, ErrorKind>(
            MessageDraft { transaction_reference: Some("SERIALIZED"@), ..d },
        ),
{
    lemma_tags();
    lemma_tag_line("20"@, "SERIALIZED"@);
}

/// The account line sets the account.
pub proof fn lemma_read_account(d: MessageDraft, account: Seq<char>)
    requires
        fits_line(account),
    ensures
        d.read(":25:"@ + account) == Ok::<MessageDraft, ErrorKind>(
            MessageDraft { account_id: Some(account), ..d },
        ),
{
    lemma_tags();
    lemma_tag_line("25"@, account);
}

/// The statement number line sets the statement number.
pub proof fn lemma_read_number(d: MessageDraft)
    ensures
        d.read(":28C:1/1"@) == Ok::<MessageDraft, ErrorKind>(
            MessageDraft { statement_number: Some("1/1"@), ..d },
        ),
{
    lemma_tags();
    lemma_tag_line("28C"@, "1/1"@);
}

/// The line of an opening balance sets the opening balance where there is
/// none yet.
pub proof fn lemma_read_opening(d: MessageDraft, value: Seq<char>)
    requires
        value.len() > 0 ==> value.last() != '\r',
        balance_of(value) is Ok,
        d.opening_balance is None,
    ensures
        d.read(":60F:"@ + value) == Ok::<MessageDraft, ErrorKind>(
            MessageDraft { opening_balance: Some(balance_of(value)->Ok_0), ..d },
        ),
{
    lemma_tags();
    lemma_tag_line("60F"@, value);
}

/// The line of a closing balance sets the closing balance.
pub proof fn lemma_read_closing(d: MessageDraft, value: Seq<char>)
    requires
        value.len() > 0 ==> value.last() != '\r',
        balance_of(value) is Ok,
    ensures
        d.read(":62F:"@ + value) == Ok::<MessageDraft, ErrorKind>(
            MessageDraft { closing_balance: Some(balance_of(value)->Ok_0), ..d },
        ),
{
    lemma_tags();
    lemma_tag_line("62F"@, value);
}

/// The four lines that open the body of a statement.
pub open spec fn body_head(s: StatementView) -> Seq<Seq<char>> {
    seq![
        ":20:SERIALIZED"@,
        ":25:"@ + s.account_id,
        ":28C:1/1"@,
        ":60F:"@ + balance_text(
            written_opening(s),
            s.period_from,
            currency_code_text(s.currency),
        ),
    ]
}

/// What has been read after the four lines that open the body.
pub open spec fn head_draft(s: StatementView) -> MessageDraft {
    MessageDraft {
        transaction_reference: Some("SERIALIZED"@),
        account_id: Some(s.account_id),
        statement_number: Some("1/1"@),
        opening_balance: Some(
            read_balance(written_opening(s), s.period_from, currency_code_text(s.currency)),
        ),
        ..MessageDraft::empty()
    }
}

/// The four lines that open the body set reference, account, statement
/// number and opening balance.
pub proof fn lemma_read_head(s: StatementView)
    requires
        fits_statement(s),
    ensures
        MessageDraft::empty().read_all(body_head(s), 0) == Ok::<MessageDraft, ErrorKind>(
            head_draft(s),
        ),
{
    lemma_code(s);
    let code = currency_code_text(s.currency);
    let opening = balance_text(written_opening(s), s.period_from, code);
    lemma_balance_text_plain(written_opening(s), s.period_from, code);
    law_balance_round_trip(written_opening(s), s.period_from, code);
    let head = body_head(s);
    let d0 = MessageDraft::empty();
    let d1 = MessageDraft { transaction_reference: Some("SERIALIZED"@), ..d0 };
    let d2 = MessageDraft { account_id: Some(s.account_id), ..d1 };
    let d3 = MessageDraft { statement_number: Some("1/1"@), ..d2 };
    lemma_read_reference(d0);
    lemma_read_account(d1, s.account_id);
    lemma_read_number(d2);
    lemma_read_opening(d3, opening);
    assert(d0.read(head[0]) == Ok::<MessageDraft, ErrorKind>(d1));
    assert(d1.read(head[1]) == Ok::<MessageDraft, ErrorKind>(d2));
    assert(d2.read(head[2]) == Ok::<MessageDraft, ErrorKind>(d3));
    assert(d3.read(head[3]) == Ok::<MessageDraft, ErrorKind>(head_draft(s)));
    assert(head.len() == 4);
    assert(d0.read_all(head, 0) == d1.read_all(head, 1));
    assert(d1.read_all(head, 1) == d2.read_all(head, 2));
    assert(d2.read_all(head, 2) == d3.read_all(head, 3));
    assert(d3.read_all(head, 3) == head_draft(s).read_all(head, 4));
}

/// The line that closes the body of a statement, where it has a closing
/// balance.
pub open spec fn body_tail(s: StatementView) -> Seq<Seq<char>> {
    match s.closing_balance {
        Some(b) => seq![
            ":62F:"@ + balance_text(b, s.period_until, currency_code_text(s.currency)),
        ],
        None => Seq::empty(),
    }
}

/// The line of the closing balance sets the closing balance.
pub proof fn lemma_read_tail(s: StatementView, d: MessageDraft)
    requires
        fits_statement(s),
    ensures
        d.read_all(body_tail(s), 0) == Ok::<MessageDraft, ErrorKind>(
            match s.closing_balance {
                Some(b) => MessageDraft {
                    closing_balance: Some(
                        read_balance(b, s.period_until, currency_code_text(s.currency)),
                    ),
                    ..d
                },
                None => d,
            },
        ),
{
    lemma_code(s);
    let code = currency_code_text(s.currency);
    let tail = body_tail(s);
    match s.closing_balance {
        Some(b) => {
            let closing = balance_text(b, s.period_until, code);
            lemma_balance_text_plain(b, s.period_until, code);
            law_balance_round_trip(b, s.period_until, code);
            lemma_read_closing(d, closing);
            let d6 = MessageDraft {
                closing_balance: Some(read_balance(b, s.period_until, code)),
                ..d
            };
            assert(d.read(tail[0]) == Ok::<MessageDraft, ErrorKind>(d6));
            assert(d.read_all(tail, 0) == d6.read_all(tail, 1));
        },
        None => {},
    }
}

/// The written body of a statement is read as its message.
pub proof fn lemma_message_of_body(s: StatementView)
    requires
        fits_statement(s),
    ensures
        message_of(mt940_body(s)) == Ok::<MessageView, ErrorKind>(read_message(s)),
{
    let n = s.transactions.len() as int;
    let head = body_head(s);
    let middle = entries_lines(s.transactions, n);
    let tail = body_tail(s);
    assert(mt940_body(s) == head + middle + tail);
    let d0 = MessageDraft::empty();
    let d4 = head_draft(s);
    lemma_read_head(s);
    lemma_read_entries(d4, s.transactions, n);
    let d5 = d4.read_all(middle, 0)->Ok_0;
    assert(d4.all_entries() =~= Seq::<EntryView>::empty());
    assert(d5.all_entries() =~= read_entries(s.transactions, n)) by {
        if n > 0 {
            assert(Seq::<EntryView>::empty() + read_entries(s.transactions, n - 1)
                =~= read_entries(s.transactions, n - 1));
            assert(read_entries(s.transactions, n - 1).push(read_entry(s.transactions[n - 1]))
                =~= read_entries(s.transactions, n));
        }
    }
    lemma_read_all_split(d0, head, middle, 0);
    lemma_read_all_split(d0, head + middle, tail, 0);
    lemma_read_tail(s, d5);
    let d6 = d5.read_all(tail, 0)->Ok_0;
    assert(d6.all_entries() == d5.all_entries());
    assert(d6.finish() == Ok::<MessageView, ErrorKind>(read_message(s)));
}

/// The description with which a written transaction is read back: what
/// the free text that was written for it holds of description, which is the
/// whole of it unless it names a counterparty with its name; without any
/// free text, the `:61:` line.
pub open spec fn read_description(written: TransactionView) -> Seq<char> {
    match line_86(written) {
        Some(info) => detail_texts(seq![info])[0],
        None => ":61:"@ + line_61(written),
    }
}

/// Whether a text holds no two slashes in a row.
pub open spec fn lacks_slashes(t: Seq<char>) -> bool {
    forall|i: int| 0 <= i && i + 1 < t.len() ==> !(#[trigger] t[i] == '/' && t[i + 1] == '/')
}

/// Whether the name of a counterparty is read back as it stands: it
/// neither begins nor ends with white space, single spaces part its words,
/// and it holds no two slashes in a row.
pub open spec fn name_fits(name: Seq<char>) -> bool {
    &&& name.len() > 0
    &&& !is_whitespace(name[0])
    &&& !is_whitespace(name.last())
    &&& join(tokens(name), seq![' ']) == name
    &&& lacks_slashes(name)
}

/// Whether a text is an IBAN as the reader keeps one: it is written in
/// capital ASCII letters and digits alone, and the pattern of an IBAN
/// accepts it.
pub open spec fn is_iban(id: Seq<char>) -> bool {
    id.len() > 0 && in_capitals(id) && regex_matches(iban_pattern(), id)
}

/// An IBAN as the reader keeps one is one word without a slash, and the
/// reader takes it for an IBAN as it stands.
pub proof fn lemma_iban_as_it_stands(id: Seq<char>)
    requires
        is_iban(id),
    ensures
        is_word(id),
        lacks_slashes(id),
        iban_of(id) == Some(id),
{
    let cls = CharClass::NonAsciiAlphanumeric;
    assert forall|i: int| 0 <= i < id.len() implies !is_whitespace(#[trigger] id[i]) && id[i]
        != '/' && !cls.has(id[i]) by {
        assert(('A' <= id[i] <= 'Z') || crate::text::is_ascii_digit(id[i]));
    }
    lemma_run_end(id, cls, 0, 0);
    assert(id.skip(0) =~= id);
    lemma_run_start(id, cls, id.len() as int, id.len() as int);
    assert(id.take(id.len() as int) =~= id);
    assert(crate::text::strip(id, cls) == id);
}

/// Whether the description and the counterparty of a transaction survive
/// the free text of an entry. The description says something and neither
/// begins nor ends with white space. The transaction names nobody, and then
/// its description holds no word in the shape of an IBAN; or it names a
/// counterparty by an IBAN as the reader keeps one, with no name or with a
/// name that is read back as it stands.
pub open spec fn free_text_fits(tx: TransactionView) -> bool {
    &&& tx.description.len() > 0
    &&& !is_whitespace(tx.description[0])
    &&& !is_whitespace(tx.description.last())
    &&& match tx.counterparty {
        None => tx.counterparty_name is None && iban_in(tx.description) is None,
        Some(id) => is_iban(id) && (tx.counterparty_name matches Some(name) ==> name_fits(name)),
    }
}

/// Whether the description and the counterparty of a transaction that was
/// read from an entry survive the free text of an entry. This is what
/// [`free_text_fits`] asks, but of the counterparty only that it is written
/// in capitals and digits: that the pattern accepts it is known of a
/// counterparty that was read.
pub open spec fn read_text_fits(tx: TransactionView) -> bool {
    &&& tx.description.len() > 0
    &&& !is_whitespace(tx.description[0])
    &&& !is_whitespace(tx.description.last())
    &&& match tx.counterparty {
        None => tx.counterparty_name is None && iban_in(tx.description) is None,
        Some(id) => in_capitals(id) && (tx.counterparty_name matches Some(name) ==> name_fits(
            name,
        )),
    }
}

/// Whether a transaction that was read agrees with the one that was
/// written: on booking date, value date, amount and direction; it has the
/// description that its free text gives it; and where the free text fits,
/// that is the description that was written, and the counterparty and its
/// name are those that were written.
pub open spec fn agrees(read: TransactionView, written: TransactionView) -> bool {
    &&& read.booking_date == written.booking_date
    &&& read.value_date == Some(written_value_date(written))
    &&& read.amount == written.amount
    &&& read.direction == written.direction
    &&& read.description == read_description(written)
    &&& free_text_fits(written) ==> read.description == written.description && read.counterparty
        == written.counterparty && read.counterparty_name == written.counterparty_name
}

/// Behind a text that holds no two slashes in a row and does not end with
/// white space, the first ` // ` is the one that is put behind it.
pub proof fn lemma_first_mark(base: Seq<char>, rest: Seq<char>)
    requires
        base.len() > 0,
        !is_whitespace(base.last()),
        lacks_slashes(base),
    ensures
        find(base + " // "@ + rest, " // "@) == Some(base.len() as int),
{
    reveal_strlit(" // ");
    let mark = " // "@;
    let full = base + mark + rest;
    let n = base.len() as int;
    assert(full.subrange(n, n + 4) =~= mark);
    assert forall|j: int| 0 <= j < n implies !occurs_at(full, mark, j) by {
        if occurs_at(full, mark, j) {
            let part = full.subrange(j, j + 4);
            assert(part[0] == ' ' && part[1] == '/' && part[2] == '/');
            assert(full[j] == ' ' && full[j + 1] == '/' && full[j + 2] == '/');
            if j + 2 < n {
                assert(base[j + 1] == '/' && base[j + 2] == '/');
            } else if j + 2 == n {
                assert(full[n] == mark[0]);
            } else {
                assert(full[j] == base.last());
            }
        }
    }
    lemma_find_is(full, mark, 0, n);
}

/// The first word that holds an IBAN among some words is the first among
/// them and more words behind them.
pub proof fn lemma_first_iban_among_more(a: Seq<Seq<char>>, b: Seq<Seq<char>>, from: int)
    requires
        0 <= from,
        first_iban_token(a, from) < a.len(),
    ensures
        first_iban_token(a + b, from) == first_iban_token(a, from),
    decreases a.len() - from,
{
    if from < a.len() {
        assert((a + b)[from] == a[from]);
        if iban_of(a[from]) is None {
            lemma_first_iban_among_more(a, b, from + 1);
        }
    }
}

/// The part of a line that can name the counterparty holds the IBAN that
/// the whole line holds.
pub proof fn lemma_party_text_iban(line: Seq<char>)
    ensures
        iban_in(party_text(line)) == iban_in(line),
{
    reveal_strlit(" // ");
    match find(line, " // "@) {
        Some(at) => {
            if iban_in(line.take(at)) is Some {
                crate::text::lemma_find_props(line, " // "@, 0);
                assert(line.subrange(at, at + 4)[0] == line[at]);
                crate::text::lemma_tokens_cut(line, at, 0);
                let head = tokens(line.take(at));
                lemma_first_iban_found(head, 0);
                lemma_first_iban_among_more(head, crate::text::tokens_from(line, at), 0);
                assert((head + crate::text::tokens_from(line, at))[first_iban_token(head, 0)]
                    == head[first_iban_token(head, 0)]);
            }
        },
        None => {},
    }
}

/// The counterparty that is found in the free-text lines of an entry is the
/// one that the plain search of the lines finds, and has the name that it
/// finds unless the line that names both holds ` // ` behind the IBAN.
pub proof fn law_counterparty_of_lines(lines: Seq<Seq<char>>)
    ensures
        counterparty_in_lines(lines) is Some <==> iban_and_name_in_lines(lines) is Some,
        counterparty_in_lines(lines) matches Some((id, _)) ==> iban_and_name_in_lines(lines)
            matches Some((plain, _)) && id == plain,
        ({
            let named = first_named_line(lines, 0);
            !(0 <= named < lines.len() && party_text(lines[named]) != lines[named])
                ==> counterparty_in_lines(lines) == iban_and_name_in_lines(lines)
        }),
{
    let named = first_named_line(lines, 0);
    if 0 <= named < lines.len() {
        lemma_party_text_iban(lines[named]);
        lemma_first_named_found(lines, 0);
    }
}

/// Where the search for a line that holds an IBAN and a name ends on a
/// line, that line holds both.
pub proof fn lemma_first_named_found(lines: Seq<Seq<char>>, from: int)
    requires
        0 <= from,
    ensures
        from <= first_named_line(lines, from),
        first_named_line(lines, from) < lines.len() ==> iban_and_name_in(
            lines[first_named_line(lines, from)],
        ) matches Some((_, Some(_))),
    decreases lines.len() - from,
{
    if from < lines.len() && !(iban_and_name_in(lines[from]) matches Some((_, Some(_)))) {
        lemma_first_named_found(lines, from + 1);
    }
}

/// One line of free text that holds no IBAN names nobody.
pub proof fn lemma_names_nobody(line: Seq<char>)
    requires
        iban_in(line) is None,
    ensures
        iban_and_name_in_lines(seq![line]) is None,
        counterparty_in_lines(seq![line]) is None,
{
    reveal_with_fuel(first_named_line, 2);
    reveal_with_fuel(first_iban_line, 2);
}

/// One line of free text that begins with a word which the reader takes
/// for an IBAN as it stands, followed by nothing or by a name that is read
/// back as it stands, names that IBAN and that name.
pub proof fn lemma_names_party(id: Seq<char>, name: Option<Seq<char>>)
    requires
        is_word(id),
        iban_of(id) == Some(id),
        name matches Some(n) ==> name_fits(n),
    ensures
        ({
            let line = match name {
                Some(n) => id + " "@ + n,
                None => id,
            };
            &&& iban_and_name_in(line) == Some((id, name))
            &&& iban_and_name_in_lines(seq![line]) == Some((id, name))
        }),
{
    reveal_strlit(" ");
    reveal_with_fuel(first_named_line, 2);
    reveal_with_fuel(first_iban_line, 2);
    reveal_with_fuel(name_line, 2);
    let rest = match name {
        Some(n) => n,
        None => Seq::empty(),
    };
    lemma_tokens_behind_word(id, ' ', rest);
    match name {
        Some(n) => {
            let line = id + " "@ + n;
            assert(" "@ =~= seq![' ']);
            let toks = tokens(line);
            lemma_run_end(n, CharClass::Whitespace, 0, 0);
            crate::text::lemma_run_end_props(n, CharClass::NonWhitespace, 0);
            assert(tokens(n).len() > 0);
            assert(toks.skip(1) =~= tokens(n));
            assert(toks[0] == id);
            assert(first_iban_token(toks, 0) == 0);
        },
        None => {
            let toks = tokens(id);
            assert(toks[0] == id);
            assert(first_iban_token(toks, 0) == 0);
        },
    }
}

/// The text of a counterparty as it is written before the description: the
/// IBAN, and the name behind a space where there is one.
pub open spec fn party_base(id: Seq<char>, name: Option<Seq<char>>) -> Seq<char> {
    match name {
        Some(n) => id + " "@ + n,
        None => id,
    }
}

/// The text of a counterparty that fits holds no two slashes in a row, and
/// neither begins nor ends with white space.
pub proof fn lemma_party_base(id: Seq<char>, name: Option<Seq<char>>)
    requires
        is_iban(id),
        name matches Some(n) ==> name_fits(n),
    ensures
        lacks_slashes(party_base(id, name)),
        party_base(id, name).len() > 0,
        party_base(id, name)[0] == id[0],
        !is_whitespace(party_base(id, name)[0]),
        !is_whitespace(party_base(id, name).last()),
{
    reveal_strlit(" ");
    lemma_iban_as_it_stands(id);
    let base = party_base(id, name);
    match name {
        Some(n) => {
            assert(base.last() == n.last());
            assert(base[0] == id[0]);
            assert forall|i: int| 0 <= i && i + 1 < base.len() implies !(#[trigger] base[i] == '/'
                && base[i + 1] == '/') by {
                if i + 1 < id.len() {
                    assert(base[i] == id[i] && base[i + 1] == id[i + 1]);
                } else if i > id.len() {
                    assert(base[i] == n[i - id.len() - 1]);
                    assert(base[i + 1] == n[i - id.len()]);
                } else if i == id.len() {
                    assert(base[i] == ' ');
                } else {
                    assert(base[i + 1] == ' ');
                }
            }
        },
        None => {},
    }
}

/// A line that holds a counterparty that fits, ` // ` and a description
/// names the counterparty with what stands behind it, and is cut at the
/// ` // `.
pub proof fn lemma_party_line(id: Seq<char>, name: Option<Seq<char>>, description: Seq<char>)
    requires
        is_iban(id),
        name matches Some(n) ==> name_fits(n),
    ensures
        ({
            let base = party_base(id, name);
            let full = base + " // "@ + description;
            &&& party_text(full) == base
            &&& detail_text(full) == description
            &&& iban_and_name_in(base) == Some((id, name))
            &&& iban_and_name_in(full) matches Some((_, Some(_)))
        }),
{
    reveal_strlit(" ");
    reveal_strlit(" // ");
    reveal_strlit("// ");
    let base = party_base(id, name);
    let full = base + " // "@ + description;
    lemma_iban_as_it_stands(id);
    lemma_party_base(id, name);
    lemma_first_mark(base, description);
    lemma_names_party(id, name);
    assert(full.take(base.len() as int) =~= base);
    assert(full.skip(base.len() as int + 4) =~= description);
    let behind = match name {
        Some(n) => n + " // "@ + description,
        None => "// "@ + description,
    };
    assert(full =~= id + seq![' '] + behind);
    assert(!is_whitespace(behind[0])) by {
        match name {
            Some(n) => {
                assert(behind[0] == n[0]);
            },
            None => {
                assert(behind[0] == '/');
            },
        }
    }
    lemma_tokens_behind_word(id, ' ', behind);
    lemma_run_end(behind, CharClass::Whitespace, 0, 0);
    crate::text::lemma_run_end_props(behind, CharClass::NonWhitespace, 0);
    assert(tokens(behind).len() > 0);
    let toks = tokens(full);
    assert(toks[0] == id);
    assert(first_iban_token(toks, 0) == 0);
}

/// Where the free text of a transaction fits, the line that is written for
/// it holds the description behind the counterparty, and names the
/// counterparty that was written.
pub proof fn lemma_free_text(tx: TransactionView)
    requires
        free_text_fits(tx),
    ensures
        line_86(tx) matches Some(info) && detail_texts(seq![info])[0] == tx.description
            && counterparty_in_lines(seq![info]) == match tx.counterparty {
            Some(id) => Some((id, tx.counterparty_name)),
            None => None,
        },
{
    let description = tx.description;
    lemma_trim_identity(description);
    reveal_with_fuel(first_named_line, 2);
    match tx.counterparty {
        None => {
            assert(line_86(tx) == Some(description));
            lemma_names_nobody(description);
        },
        Some(id) => {
            let base = party_base(id, tx.counterparty_name);
            let full = base + " // "@ + description;
            lemma_party_base(id, tx.counterparty_name);
            lemma_written_party_line(tx);
            lemma_party_line(id, tx.counterparty_name, description);
            assert(seq![full][0] == full);
        },
    }
}

/// The line that is written for a transaction whose free text fits and
/// which names a counterparty: the counterparty, ` // `, the description.
pub proof fn lemma_written_party_line(tx: TransactionView)
    requires
        free_text_fits(tx),
        tx.counterparty is Some,
    ensures
        line_86(tx) == Some(
            party_base(tx.counterparty->0, tx.counterparty_name) + " // "@ + tx.description,
        ),
{
    reveal_strlit(" ");
    reveal_strlit(" // ");
    let id = tx.counterparty->0;
    let description = tx.description;
    let base = party_base(id, tx.counterparty_name);
    let full = base + " // "@ + description;
    lemma_iban_as_it_stands(id);
    lemma_party_base(id, tx.counterparty_name);
    lemma_trim_identity(description);
    lemma_trim_identity(id);
    match tx.counterparty_name {
        Some(n) => {
            lemma_trim_identity(n);
        },
        None => {},
    }
    assert(full[0] == base[0]);
    assert(full.last() == description.last());
    lemma_trim_identity(full);
}

/// The description of an entry that was read from the lines of a
/// transaction; and where the free text fits, its counterparty.
pub proof fn lemma_read_description(tx: TransactionView)
    requires
        fits_mt940(tx),
    ensures
        description_of(read_entry(tx)) == read_description(tx),
        free_text_fits(tx) ==> description_of(read_entry(tx)) == tx.description && counterparty_of(
            read_entry(tx),
        ) == (tx.counterparty, tx.counterparty_name),
{
    let raw = ":61:"@ + line_61(tx);
    lemma_entry_of_line_61(tx, raw);
    let e = read_entry(tx);
    let none = Seq::<Seq<char>>::empty();
    match line_86(tx) {
        Some(info) => {
            assert(e.info =~= seq![info]);
            let detail = detail_texts(seq![info])[0];
            assert(detail_texts(e.info) =~= seq![detail]);
            assert(join(detail_texts(e.info), " "@) == detail);
            let parts = description_parts(e);
            assert(parts =~= seq![detail]);
            assert(join(parts, " | "@) == detail);
        },
        None => {
            assert(description_parts(e) =~= none);
        },
    }
    if free_text_fits(tx) {
        lemma_free_text(tx);
    }
}

/// The entries that were read stand for transactions that agree with those
/// that were written.
pub proof fn lemma_transactions_read_back(txs: Seq<TransactionView>, n: int)
    requires
        0 <= n <= txs.len(),
        forall|i: int| 0 <= i < txs.len() ==> fits_mt940(#[trigger] txs[i]),
    ensures
        transactions_of(read_entries(txs, txs.len() as int), n) matches Ok(back) && back.len() == n
            && forall|i: int| 0 <= i < n ==> agrees(#[trigger] back[i], txs[i]),
    decreases n,
{
    if n > 0 {
        lemma_transactions_read_back(txs, n - 1);
        let tx = txs[n - 1];
        let info: Seq<Seq<char>> = match line_86(tx) {
            Some(i) => seq![i],
            None => Seq::empty(),
        };
        law_entry_round_trip(tx, ":61:"@ + line_61(tx), info);
        lemma_entry_of_line_61(tx, ":61:"@ + line_61(tx));
        lemma_read_description(tx);
        assert(read_entries(txs, txs.len() as int)[n - 1] == read_entry(tx));
    }
}

/// Reading a list of lines from an index behind some other lines is
/// reading the list alone.
pub proof fn lemma_frame_shift(f: Framing, a: Seq<Seq<char>>, b: Seq<Seq<char>>, j: int)
    requires
        0 <= j,
    ensures
        f.read_all(a + b, a.len() + j) == f.read_all(b, j),
    decreases b.len() - j,
{
    if j < b.len() {
        assert((a + b)[a.len() + j] == b[j]);
        match f.read(b[j]) {
            Ok(next) => lemma_frame_shift(next, a, b, j + 1),
            Err(_) => {},
        }
    }
}

/// Reading two lists of lines one after the other is reading the first
/// and then, from where that ends, the second.
pub proof fn lemma_frame_split(f: Framing, a: Seq<Seq<char>>, b: Seq<Seq<char>>, i: int)
    requires
        0 <= i <= a.len(),
    ensures
        f.read_all(a + b, i) == match f.read_all(a, i) {
            Ok(mid) => mid.read_all(b, 0),
            Err(k) => Err(k),
        },
    decreases a.len() - i,
{
    if i < a.len() {
        assert((a + b)[i] == a[i]);
        match f.read(a[i]) {
            Ok(next) => lemma_frame_split(next, a, b, i + 1),
            Err(_) => {},
        }
    } else {
        lemma_frame_shift(f, a, b, 0);
    }
}

/// Whether a line begins with a colon.
pub open spec fn colon_line(l: Seq<char>) -> bool {
    l.len() > 0 && l[0] == ':'
}

/// A line that begins with a colon is not blank, and still begins with the
/// colon once it is trimmed.
pub proof fn lemma_colon_line(l: Seq<char>)
    requires
        colon_line(l),
    ensures
        !is_blank(l),
        trim(l).len() > 0,
        trim(l)[0] == ':',
{
    let ws = CharClass::Whitespace;
    lemma_run_end(l, ws, 0, 0);
    assert(l.skip(0) =~= l);
    crate::text::lemma_run_start_props(l, ws, l.len() as int);
    let b = crate::text::run_start(l, ws, l.len() as int);
    if b == 0 {
        assert(ws.has(l[0]));
    }
    assert(trim(l) == l.take(b));
}

/// Inside a curly text block, lines that begin with a colon are gathered
/// as they come.
pub proof fn lemma_frame_body(f: Framing, body: Seq<Seq<char>>, i: int)
    requires
        f.in_block,
        f.kind == Some(BlockKind::Curly),
        0 <= i <= body.len(),
        forall|k: int| 0 <= k < body.len() ==> colon_line(#[trigger] body[k]),
    ensures
        f.read_all(body, i) == Ok::<Framing, ErrorKind>(
            Framing { body: f.body + body.skip(i), ..f },
        ),
    decreases body.len() - i,
{
    if i < body.len() {
        let l = body[i];
        assert(colon_line(l));
        lemma_colon_line(l);
        reveal_strlit("-}");
        reveal_strlit("}");
        let t = trim(l);
        assert(!starts_with(t, "-}"@)) by {
            if starts_with(t, "-}"@) {
                assert(t.subrange(0, 2)[0] == "-}"@[0]);
            }
        }
        assert(!starts_with(t, "}"@)) by {
            if starts_with(t, "}"@) {
                assert(t.subrange(0, 1)[0] == "}"@[0]);
            }
        }
        let next = Framing { body: f.body.push(l), ..f };
        assert(f.read(l) == Ok::<Framing, ErrorKind>(next));
        lemma_frame_body(next, body, i + 1);
        assert(next.body + body.skip(i + 1) =~= f.body + body.skip(i));
    } else {
        assert(f.body + body.skip(i) =~= f.body);
    }
}

/// The line that opens a curly text block opens it, and brings nothing
/// into the block.
pub proof fn lemma_frame_open()
    ensures
        Framing::start().read("{4:"@) == Ok::<Framing, ErrorKind>(
            Framing { kind: Some(BlockKind::Curly), in_block: true, ..Framing::start() },
        ),
{
    reveal_strlit("{4:");
    reveal_strlit("(4:");
    let l = "{4:"@;
    let ws = CharClass::Whitespace;
    lemma_run_end(l, ws, 0, 0);
    assert(l.subrange(0, 3) =~= l);
    assert(occurs_at(l, "{4:"@, 0));
    lemma_find_is(l, "{4:"@, 0, 0);
    assert forall|j: int| 0 <= j implies !occurs_at(l, "(4:"@, j) by {
        if occurs_at(l, "(4:"@, j) {
            assert(l.subrange(0, 3)[0] == "(4:"@[0]);
        }
    }
    lemma_find_none(l, "(4:"@, 0);
    let after = l.skip(3);
    assert(after =~= Seq::<char>::empty());
    assert(is_blank(after));
}

/// The line that closes a curly text block has its lines read as one
/// message.
pub proof fn lemma_frame_close(f: Framing)
    requires
        f.in_block,
        f.kind == Some(BlockKind::Curly),
    ensures
        f.read("-}"@) == f.close_block(),
{
    reveal_strlit("-}");
    let l = "-}"@;
    lemma_trim_identity(l);
    lemma_run_end(l, CharClass::Whitespace, 0, 0);
    assert(l.subrange(0, 2) =~= l);
}

/// The lines of the first `n` transactions begin with a colon and can be
/// read back as they are.
pub proof fn lemma_entries_lines_plain(txs: Seq<TransactionView>, n: int)
    requires
        0 <= n <= txs.len(),
        forall|i: int| 0 <= i < n ==> fits_mt940(#[trigger] txs[i]),
    ensures
        forall|k: int|
            0 <= k < entries_lines(txs, n).len() ==> colon_line(#[trigger] entries_lines(txs, n)[k])
                && fits_line(entries_lines(txs, n)[k]),
    decreases n,
{
    if n > 0 {
        lemma_entries_lines_plain(txs, n - 1);
        let before = entries_lines(txs, n - 1);
        let tx = txs[n - 1];
        let these = entry_lines(tx);
        reveal_strlit(":61:");
        reveal_strlit(":86:");
        lemma_line_61_end(tx);
        lemma_line_86_trimmed(tx);
        let l61 = ":61:"@ + line_61(tx);
        assert(colon_line(l61) && fits_line(l61)) by {
            assert(l61.last() == line_61(tx).last());
        }
        match line_86(tx) {
            Some(info) => {
                let l86 = ":86:"@ + info;
                assert(colon_line(l86) && fits_line(l86)) by {
                    assert(l86.last() == info.last());
                }
                assert(these =~= seq![l61, l86]);
            },
            None => {
                assert(these =~= seq![l61]);
            },
        }
        assert forall|k: int| 0 <= k < entries_lines(txs, n).len() implies colon_line(
            #[trigger] entries_lines(txs, n)[k],
        ) && fits_line(entries_lines(txs, n)[k]) by {
            if k < before.len() {
                assert(entries_lines(txs, n)[k] == before[k]);
            } else {
                assert(entries_lines(txs, n)[k] == these[k - before.len()]);
            }
        }
    }
}

/// The lines of the body of a statement begin with a colon and can be read
/// back as they are.
pub proof fn lemma_body_plain(s: StatementView)
    requires
        fits_statement(s),
    ensures
        forall|k: int|
            0 <= k < mt940_body(s).len() ==> colon_line(#[trigger] mt940_body(s)[k]) && fits_line(
                mt940_body(s)[k],
            ),
{
    let n = s.transactions.len() as int;
    let head = body_head(s);
    let middle = entries_lines(s.transactions, n);
    let tail = body_tail(s);
    let body = mt940_body(s);
    assert(body == head + middle + tail);
    lemma_code(s);
    let code = currency_code_text(s.currency);
    reveal_strlit(":20:SERIALIZED");
    reveal_strlit(":25:");
    reveal_strlit(":28C:1/1");
    reveal_strlit(":60F:");
    reveal_strlit(":62F:");
    lemma_balance_text_plain(written_opening(s), s.period_from, code);
    lemma_entries_lines_plain(s.transactions, n);
    let opening = balance_text(written_opening(s), s.period_from, code);
    assert(colon_line(head[0]) && fits_line(head[0]));
    assert(colon_line(head[1]) && fits_line(head[1])) by {
        if s.account_id.len() > 0 {
            assert(head[1].last() == s.account_id.last());
        }
    }
    assert(colon_line(head[2]) && fits_line(head[2]));
    assert(colon_line(head[3]) && fits_line(head[3])) by {
        assert(head[3].last() == opening.last());
    }
    match s.closing_balance {
        Some(b) => {
            let closing = balance_text(b, s.period_until, code);
            lemma_balance_text_plain(b, s.period_until, code);
            assert(colon_line(tail[0]) && fits_line(tail[0])) by {
                assert(tail[0].last() == closing.last());
            }
        },
        None => {},
    }
    assert forall|k: int| 0 <= k < body.len() implies colon_line(#[trigger] body[k]) && fits_line(
        body[k],
    ) by {
        if k < 4 {
            assert(body[k] == head[k]);
        } else if k < 4 + middle.len() {
            assert(body[k] == middle[k - 4]);
        } else {
            assert(body[k] == tail[k - 4 - middle.len()]);
        }
    }
}

/// The latest booking date depends on the booking dates alone.
pub proof fn lemma_latest_agrees(
    a: Seq<TransactionView>,
    b: Seq<TransactionView>,
    n: int,
    floor: (int, int, int),
)
    requires
        0 <= n <= a.len(),
        n <= b.len(),
        forall|i: int| 0 <= i < n ==> (#[trigger] a[i]).booking_date == b[i].booking_date,
    ensures
        latest_booking(a, n, floor) == latest_booking(b, n, floor),
    decreases n,
{
    if n > 1 {
        lemma_latest_agrees(a, b, n - 1, floor);
    }
}

/// The written text of a statement is read as one message, which is that
/// of its body.
pub proof fn lemma_first_message(s: StatementView)
    requires
        fits_statement(s),
    ensures
        first_message_of(mt940_text(s)) == Ok::<(MessageView, nat), ErrorKind>(
            (read_message(s), 1nat),
        ),
{
    let body = mt940_body(s);
    let all = mt940_lines(s);
    lemma_body_plain(s);
    reveal_strlit("{4:");
    reveal_strlit("-}");
    assert forall|i: int, j: int| 0 <= i < all.len() && 0 <= j < all[i].len() implies all[i][j]
        != '\n' by {
        if 1 <= i <= body.len() {
            assert(all[i] == body[i - 1]);
        }
    }
    assert forall|i: int| 0 <= i < all.len() && all[i].len() > 0 implies #[trigger] all[i].last()
        != '\r' by {
        if 1 <= i <= body.len() {
            assert(all[i] == body[i - 1]);
        }
    }
    lemma_lines_unlines(all);
    let f0 = Framing::start();
    let f1 = Framing { kind: Some(BlockKind::Curly), in_block: true, ..f0 };
    lemma_frame_open();
    let first = seq!["{4:"@];
    let last = seq!["-}"@];
    assert(all == first + body + last);
    assert(f0.read_all(first, 0) == Ok::<Framing, ErrorKind>(f1)) by {
        reveal_with_fuel(Framing::read_all, 3);
    }
    lemma_frame_body(f1, body, 0);
    let f2 = Framing { body: f1.body + body.skip(0), ..f1 };
    assert(f2.body =~= body);
    lemma_frame_split(f0, first, body, 0);
    lemma_frame_split(f0, first + body, last, 0);
    lemma_frame_close(f2);
    lemma_message_of_body(s);
    let f3 = f2.close_block()->Ok_0;
    assert(f2.read_all(last, 0) == Ok::<Framing, ErrorKind>(f3)) by {
        reveal_with_fuel(Framing::read_all, 3);
    }
}

/// A statement that is written as an MT940 message is read back with its
/// account, its currency where that is one that the library knows by name,
/// its balances, the day that opens its period and the day that closes it
/// once written; and each transaction with its
/// booking date, its value date (the booking date where it had none), its
/// amount and its direction. The message always states an opening balance,
/// which is zero where the statement has none. A transaction whose free
/// text fits is read back with its description, its counterparty and the
/// name of its counterparty; any other with what its free text holds of
/// description.
pub proof fn law_mt940_round_trip(s: StatementView)
    requires
        fits_statement(s),
    ensures
        first_message_of(mt940_text(s)) == Ok::<(MessageView, nat), ErrorKind>(
            (read_message(s), 1nat),
        ),
        statement_of(read_message(s)) is Ok,
        ({
            let back = statement_of(read_message(s))->Ok_0;
            &&& back.account_id == s.account_id
            &&& back.account_name is None
            &&& !(s.currency is Other) ==> back.currency == s.currency
            &&& back.opening_balance == Some(written_opening(s))
            &&& back.closing_balance == s.closing_balance
            &&& back.period_from == s.period_from
            &&& back.period_until == written_until(s)
            &&& back.transactions.len() == s.transactions.len()
            &&& forall|i: int|
                0 <= i < s.transactions.len() ==> agrees(
                    #[trigger] back.transactions[i],
                    s.transactions[i],
                )
        }),
{
    if !(s.currency is Other) {
        law_currency_round_trip(s.currency);
    }
    lemma_first_message(s);
    lemma_code(s);
    let code = currency_code_text(s.currency);
    let m = read_message(s);
    let n = s.transactions.len() as int;
    law_balance_round_trip(written_opening(s), s.period_from, code);
    lemma_transactions_read_back(s.transactions, n);
    let back_txs = transactions_of(m.entries, n)->Ok_0;
    lemma_latest_agrees(back_txs, s.transactions, n, s.period_from);
    match s.closing_balance {
        Some(b) => {
            law_balance_round_trip(b, s.period_until, code);
        },
        None => {},
    }
}

/// Where the search for a word that holds an IBAN ends on a word, that
/// word holds one.
pub proof fn lemma_first_iban_found(toks: Seq<Seq<char>>, from: int)
    requires
        0 <= from,
    ensures
        from <= first_iban_token(toks, from),
        first_iban_token(toks, from) < toks.len() ==> iban_of(
            toks[first_iban_token(toks, from)],
        ) is Some,
    decreases toks.len() - from,
{
    if from < toks.len() && iban_of(toks[from]) is None {
        lemma_first_iban_found(toks, from + 1);
    }
}

/// Where the search for a line that holds an IBAN ends on a line, that
/// line holds one.
pub proof fn lemma_first_iban_line_found(lines: Seq<Seq<char>>, from: int)
    requires
        0 <= from,
    ensures
        from <= first_iban_line(lines, from),
        first_iban_line(lines, from) < lines.len() ==> iban_in(
            lines[first_iban_line(lines, from)],
        ) is Some,
    decreases lines.len() - from,
{
    if from < lines.len() && iban_in(lines[from]) is None {
        lemma_first_iban_line_found(lines, from + 1);
    }
}

/// The IBAN that is found in a line is one word that the pattern of an
/// IBAN accepts.
pub proof fn lemma_found_accepted(line: Seq<char>)
    ensures
        iban_and_name_in(line) matches Some((id, _)) ==> is_word(id) && regex_matches(
            iban_pattern(),
            id,
        ),
        iban_in(line) matches Some(id) ==> is_word(id) && regex_matches(iban_pattern(), id),
{
    lemma_first_iban_found(tokens(line), 0);
}

/// The IBAN that is found in some lines is one word that the pattern of an
/// IBAN accepts.
pub proof fn lemma_lines_found_accepted(lines: Seq<Seq<char>>)
    ensures
        iban_and_name_in_lines(lines) matches Some((id, _)) ==> is_word(id) && regex_matches(
            iban_pattern(),
            id,
        ),
{
    let named = first_named_line(lines, 0);
    let with_iban = first_iban_line(lines, 0);
    if 0 <= named < lines.len() {
        lemma_found_accepted(lines[named]);
    } else if 0 <= with_iban < lines.len() {
        lemma_first_iban_line_found(lines, 0);
        lemma_found_accepted(lines[with_iban]);
    }
}

/// The counterparty that is found in the free-text lines of an entry is
/// one word that the pattern of an IBAN accepts.
pub proof fn lemma_party_found_accepted(lines: Seq<Seq<char>>)
    ensures
        counterparty_in_lines(lines) matches Some((id, _)) ==> is_word(id) && regex_matches(
            iban_pattern(),
            id,
        ),
{
    let named = first_named_line(lines, 0);
    if 0 <= named < lines.len() {
        lemma_found_accepted(party_text(lines[named]));
    } else {
        lemma_lines_found_accepted(lines);
    }
}

/// The counterparty of an entry is one word that the pattern of an IBAN
/// accepts; written in capitals and digits, it is an IBAN as the reader
/// keeps one.
pub proof fn lemma_counterparty_accepted(e: EntryView)
    ensures
        counterparty_of(e).0 matches Some(id) ==> is_word(id) && regex_matches(iban_pattern(), id)
            && (in_capitals(id) ==> is_iban(id)),
{
    lemma_party_found_accepted(e.info);
    match e.customer_reference {
        Some(c) => {
            lemma_found_accepted(c);
        },
        None => {},
    }
    match e.bank_reference {
        Some(b) => {
            lemma_found_accepted(b);
        },
        None => {},
    }
}

/// A statement that was read from an MT940 message, is written as a
/// message and read again, comes back as it was: with its account, its
/// currency where that is one that the library knows by name, both balances,
/// both ends of its period, and each transaction with its booking date, its
/// value date, its amount and its direction; and where the free text of a
/// transaction that was read fits, with its description, its counterparty
/// and the name of its counterparty. This holds where the texts of the
/// statement stay on one line each.
pub proof fn law_mt940_read_again(m: MessageView)
    requires
        statement_of(m) is Ok,
        texts_fit(statement_of(m)->Ok_0),
    ensures
        ({
            let s = statement_of(m)->Ok_0;
            let back = statement_of(read_message(s))->Ok_0;
            &&& first_message_of(mt940_text(s)) == Ok::<(MessageView, nat), ErrorKind>(
                (read_message(s), 1nat),
            )
            &&& statement_of(read_message(s)) is Ok
            &&& back.account_id == s.account_id
            &&& back.account_name == s.account_name
            &&& !(s.currency is Other) ==> back.currency == s.currency
            &&& back.opening_balance == s.opening_balance
            &&& back.closing_balance == s.closing_balance
            &&& back.period_from == s.period_from
            &&& back.period_until == s.period_until
            &&& back.transactions.len() == s.transactions.len()
            &&& forall|i: int|
                0 <= i < s.transactions.len() ==> {
                    let read = #[trigger] back.transactions[i];
                    let written = s.transactions[i];
                    &&& read.booking_date == written.booking_date
                    &&& read.value_date == written.value_date
                    &&& read.amount == written.amount
                    &&& read.direction == written.direction
                    &&& read_text_fits(written) ==> read.description == written.description
                        && read.counterparty == written.counterparty && read.counterparty_name
                        == written.counterparty_name
                }
        }),
{
    let s = statement_of(m)->Ok_0;
    law_read_statement_fits(m);
    law_mt940_round_trip(s);
    let back = statement_of(read_message(s))->Ok_0;
    assert forall|i: int| 0 <= i < s.transactions.len() implies {
        let read = #[trigger] back.transactions[i];
        let written = s.transactions[i];
        &&& read.booking_date == written.booking_date
        &&& read.value_date == written.value_date
        &&& read.amount == written.amount
        &&& read.direction == written.direction
        &&& read_text_fits(written) ==> read.description == written.description
            && read.counterparty == written.counterparty && read.counterparty_name
            == written.counterparty_name
    } by {
        assert(agrees(back.transactions[i], s.transactions[i]));
        assert(s.transactions[i].value_date is Some);
        lemma_each_read_transaction(m.entries, m.entries.len() as int);
        assert(transaction_of(m.entries[i]) == Ok::<TransactionView, ErrorKind>(
            s.transactions[i],
        ));
        lemma_counterparty_accepted(m.entries[i]);
    }
}

} // verus!
