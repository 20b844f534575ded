//! What is read from an MT940 text stays on one line each, so that it can
//! be written into a message again.

use crate::error::ErrorKind;
use crate::laws::mt940::{
    fits_line, law_mt940_read_again, lemma_each_read_transaction, lemma_first_iban_found,
    lemma_first_iban_line_found, read_message, read_text_fits, texts_fit,
};
use crate::model::TransactionView;
use crate::mt940::utils::{
    counterparty_in_lines, dc_and_amount_of, detail_text, first_iban_line, first_iban_token,
    first_named_line, iban_and_name_in, iban_and_name_in_lines, iban_in, iban_of, name_line,
    party_text, tag_line_of,
};
use crate::mt940::{
    all_in, counterparty_of, description_of, description_parts, detail_texts, entry_of,
    first_message_of, listed, message_of, references_of, statement_of, transaction_of, BlockKind,
    EntryView, Framing, MessageDraft, MessageView,
};
use crate::serialization::mt940_helpers::{line_86, mt940_text};
use crate::text::{
    chomp_cr, find, is_ascii_alphabetic, is_blank, is_whitespace, is_word, join,
    lemma_run_end_props, lemma_run_start_props, lines, lines_from, run_end, run_start, starts_with,
    strip_end, tokens, tokens_from, trim, trim_start, CharClass,
};
use vstd::prelude::*;

verus! {

/// Whether a text holds no line feed.
pub open spec fn one_line(s: Seq<char>) -> bool {
    forall|i: int| 0 <= i < s.len() ==> s[i] != '\n'
}

/// Whether a text, where there is one, holds no line feed.
pub open spec fn one_line_if_any(o: Option<Seq<char>>) -> bool {
    o matches Some(s) ==> one_line(s)
}

/// Whether each of some texts holds no line feed.
pub open spec fn one_line_each(texts: Seq<Seq<char>>) -> bool {
    forall|i: int| 0 <= i < texts.len() ==> one_line(#[trigger] texts[i])
}

/// A part of a text that holds no line feed holds none.
pub proof fn lemma_part_one_line(s: Seq<char>, from: int, to: int)
    requires
        one_line(s),
        0 <= from <= to <= s.len(),
    ensures
        one_line(s.subrange(from, to)),
{
    assert forall|i: int| 0 <= i < to - from implies s.subrange(from, to)[i] != '\n' by {
        assert(s.subrange(from, to)[i] == s[from + i]);
    }
}

/// Trimming a text that holds no line feed leaves one that holds none.
pub proof fn lemma_trim_one_line(s: Seq<char>)
    requires
        one_line(s),
    ensures
        one_line(trim(s)),
{
    let ws = CharClass::Whitespace;
    lemma_run_end_props(s, ws, 0);
    let a = run_end(s, ws, 0);
    let t = s.skip(a);
    lemma_run_start_props(t, ws, t.len() as int);
    let b = run_start(t, ws, t.len() as int);
    assert(trim(s) =~= s.subrange(a, a + b));
    lemma_part_one_line(s, a, a + b);
}

/// Two texts without a line feed give a text without one.
pub proof fn lemma_add_one_line(a: Seq<char>, b: Seq<char>)
    requires
        one_line(a),
        one_line(b),
    ensures
        one_line(a + b),
{
    assert forall|i: int| 0 <= i < (a + b).len() implies (a + b)[i] != '\n' by {
        if i < a.len() {
            assert((a + b)[i] == a[i]);
        } else {
            assert((a + b)[i] == b[i - a.len()]);
        }
    }
}

/// Texts without a line feed, joined by one without, give one without.
pub proof fn lemma_join_one_line(parts: Seq<Seq<char>>, sep: Seq<char>)
    requires
        one_line_each(parts),
        one_line(sep),
    ensures
        one_line(join(parts, sep)),
    decreases parts.len(),
{
    if parts.len() == 1 {
        assert(one_line(parts[0]));
    } else if parts.len() > 1 {
        let front = parts.drop_last();
        assert forall|i: int| 0 <= i < front.len() implies one_line(#[trigger] front[i]) by {
            assert(front[i] == parts[i]);
        }
        lemma_join_one_line(front, sep);
        assert(one_line(parts.last()));
        lemma_add_one_line(join(front, sep), sep);
        lemma_add_one_line(join(front, sep) + sep, parts.last());
    }
}

/// A word holds no line feed.
pub proof fn lemma_word_one_line(w: Seq<char>)
    requires
        is_word(w),
    ensures
        one_line(w),
{
    assert forall|i: int| 0 <= i < w.len() implies w[i] != '\n' by {
        assert(!is_whitespace(w[i]));
    }
}

/// The words of a text hold no line feed.
pub proof fn lemma_tokens_one_line(s: Seq<char>, from: int)
    ensures
        one_line_each(tokens_from(s, from)),
    decreases s.len() - from,
{
    let ws = CharClass::Whitespace;
    let nws = CharClass::NonWhitespace;
    let a = run_end(s, ws, from);
    if from >= 0 && a < s.len() {
        lemma_run_end_props(s, ws, from);
        lemma_run_end_props(s, nws, a);
        let b = run_end(s, nws, a);
        let first = s.subrange(a, b);
        assert forall|i: int| 0 <= i < first.len() implies first[i] != '\n' by {
            assert(first[i] == s[a + i]);
            assert(nws.has(s[a + i]));
        }
        lemma_tokens_one_line(s, b);
        let rest = tokens_from(s, b);
        let all = tokens_from(s, from);
        assert(all =~= seq![first] + rest);
        assert forall|i: int| 0 <= i < all.len() implies one_line(#[trigger] all[i]) by {
            if i > 0 {
                assert(all[i] == rest[i - 1]);
            }
        }
    }
}

/// Texts without a line feed, listed one after the other, are texts
/// without a line feed.
pub proof fn lemma_lists_one_line(a: Seq<Seq<char>>, b: Seq<Seq<char>>)
    requires
        one_line_each(a),
        one_line_each(b),
    ensures
        one_line_each(a + b),
{
    assert forall|i: int| 0 <= i < (a + b).len() implies one_line(#[trigger] (a + b)[i]) by {
        if i < a.len() {
            assert((a + b)[i] == a[i]);
        } else {
            assert((a + b)[i] == b[i - a.len()]);
        }
    }
}

/// Whether the texts of an entry that go into the description and the
/// counterparty of its transaction hold no line feed.
pub open spec fn entry_one_line(e: EntryView) -> bool {
    &&& one_line(e.raw_61)
    &&& one_line_if_any(e.transaction_type)
    &&& one_line_if_any(e.customer_reference)
    &&& one_line_if_any(e.bank_reference)
    &&& one_line_if_any(e.extra_details)
    &&& one_line_each(e.info)
}

/// Whether the texts of a message stay on one line each when they are
/// written again: its account, and the texts of its entries.
pub open spec fn message_one_line(m: MessageView) -> bool {
    &&& fits_line(m.account_id)
    &&& forall|i: int| 0 <= i < m.entries.len() ==> entry_one_line(#[trigger] m.entries[i])
}

/// What a line of free text holds of description, and what of it can name
/// the counterparty, holds no line feed where the line holds none.
pub proof fn lemma_free_text_one_line(line: Seq<char>)
    requires
        one_line(line),
    ensures
        one_line(detail_text(line)),
        one_line(party_text(line)),
{
    reveal_strlit(" // ");
    match find(line, " // "@) {
        Some(at) => {
            crate::text::lemma_find_props(line, " // "@, 0);
            lemma_part_one_line(line, at + 4, line.len() as int);
            lemma_part_one_line(line, 0, at);
            assert(line.skip(at + 4) =~= line.subrange(at + 4, line.len() as int));
            assert(line.take(at) =~= line.subrange(0, at));
        },
        None => {},
    }
}

/// The description of an entry whose texts hold no line feed holds none.
pub proof fn lemma_description_one_line(e: EntryView)
    requires
        entry_one_line(e),
    ensures
        one_line(description_of(e)),
{
    reveal_strlit("//");
    reveal_strlit(" ");
    reveal_strlit(" | ");
    let bank = match e.bank_reference {
        Some(b) => Some("//"@ + b),
        None => None,
    };
    match e.bank_reference {
        Some(b) => {
            lemma_add_one_line("//"@, b);
        },
        None => {},
    }
    let details = detail_texts(e.info);
    assert forall|i: int| 0 <= i < details.len() implies one_line(#[trigger] details[i]) by {
        assert(one_line(e.info[i]));
        lemma_free_text_one_line(e.info[i]);
        assert(details[i] == e.info[i] || details[i] == detail_text(e.info[i]));
    }
    lemma_join_one_line(details, " "@);
    let told = if e.info.len() > 0 {
        Some(join(details, " "@))
    } else {
        None
    };
    let a = listed(e.transaction_type);
    let b = listed(e.customer_reference);
    let c = listed(bank);
    let d = listed(e.extra_details);
    let f = listed(told);
    lemma_lists_one_line(a, b);
    lemma_lists_one_line(a + b, c);
    lemma_lists_one_line(a + b + c, d);
    lemma_lists_one_line(a + b + c + d, f);
    assert(description_parts(e) == a + b + c + d + f);
    lemma_join_one_line(description_parts(e), " | "@);
}

/// The IBAN and the name that are found in a line hold no line feed.
pub proof fn lemma_found_one_line(line: Seq<char>)
    ensures
        iban_and_name_in(line) matches Some((id, name)) ==> one_line(id) && one_line_if_any(name),
        iban_in(line) matches Some(id) ==> one_line(id),
{
    let toks = tokens(line);
    let i = first_iban_token(toks, 0);
    lemma_first_iban_found(toks, 0);
    if 0 <= i < toks.len() {
        lemma_word_one_line(iban_of(toks[i])->0);
        lemma_tokens_one_line(line, 0);
        let rest = toks.skip(i + 1);
        assert forall|k: int| 0 <= k < rest.len() implies one_line(#[trigger] rest[k]) by {
            assert(rest[k] == toks[i + 1 + k]);
        }
        lemma_join_one_line(rest, seq![' ']);
    }
}

/// A line that is taken for a name holds no line feed where no line does.
pub proof fn lemma_name_line_one_line(lines: Seq<Seq<char>>, from: int)
    requires
        one_line_each(lines),
    ensures
        one_line_if_any(name_line(lines, from)),
    decreases lines.len() - from,
{
    if 0 <= from < lines.len() {
        assert(one_line(lines[from]));
        lemma_trim_one_line(lines[from]);
        lemma_name_line_one_line(lines, from + 1);
    }
}

/// The IBAN and the name that are found in lines without a line feed hold
/// none.
pub proof fn lemma_lines_found_one_line(lines: Seq<Seq<char>>)
    requires
        one_line_each(lines),
    ensures
        iban_and_name_in_lines(lines) matches Some((id, name)) ==> one_line(id) && one_line_if_any(
            name,
        ),
{
    let named = first_named_line(lines, 0);
    let with_iban = first_iban_line(lines, 0);
    if 0 <= named < lines.len() {
        lemma_found_one_line(lines[named]);
    } else if 0 <= with_iban < lines.len() {
        lemma_first_iban_line_found(lines, 0);
        lemma_found_one_line(lines[with_iban]);
        lemma_name_line_one_line(lines, with_iban + 1);
    }
}

/// The counterparty that is found in the free-text lines of an entry, and
/// its name, hold no line feed where the lines hold none.
pub proof fn lemma_party_found_one_line(lines: Seq<Seq<char>>)
    requires
        one_line_each(lines),
    ensures
        counterparty_in_lines(lines) matches Some((id, name)) ==> one_line(id) && one_line_if_any(
            name,
        ),
{
    let named = first_named_line(lines, 0);
    if 0 <= named < lines.len() {
        lemma_found_one_line(party_text(lines[named]));
    } else {
        lemma_lines_found_one_line(lines);
    }
}

/// The counterparty of an entry whose texts hold no line feed, and its
/// name, hold none.
pub proof fn lemma_counterparty_one_line(e: EntryView)
    requires
        entry_one_line(e),
    ensures
        one_line_if_any(counterparty_of(e).0),
        one_line_if_any(counterparty_of(e).1),
{
    lemma_party_found_one_line(e.info);
    match e.customer_reference {
        Some(c) => {
            lemma_found_one_line(c);
        },
        None => {},
    }
    match e.bank_reference {
        Some(b) => {
            lemma_found_one_line(b);
        },
        None => {},
    }
}

/// The free text that is written for a transaction holds no line feed
/// where its description, its counterparty and the name of its counterparty
/// hold none.
pub proof fn lemma_line_86_one_line(tx: TransactionView)
    requires
        one_line(tx.description),
        one_line_if_any(tx.counterparty),
        one_line_if_any(tx.counterparty_name),
    ensures
        line_86(tx) matches Some(info) ==> one_line(info),
{
    reveal_strlit(" ");
    reveal_strlit(" // ");
    let empty = Seq::<char>::empty();
    let account = match tx.counterparty {
        Some(c) => trim(c),
        None => empty,
    };
    let name = match tx.counterparty_name {
        Some(n) => trim(n),
        None => empty,
    };
    match tx.counterparty {
        Some(c) => {
            lemma_trim_one_line(c);
        },
        None => {},
    }
    match tx.counterparty_name {
        Some(n) => {
            lemma_trim_one_line(n);
        },
        None => {},
    }
    lemma_trim_one_line(tx.description);
    let description = trim(tx.description);
    lemma_add_one_line(account, " "@);
    lemma_add_one_line(account + " "@, name);
    let base = if account.len() > 0 && name.len() > 0 {
        account + " "@ + name
    } else if account.len() > 0 {
        account
    } else {
        name
    };
    lemma_add_one_line(base, " // "@);
    lemma_add_one_line(base + " // "@, description);
    let full = if description.len() == 0 {
        base
    } else if base.len() > 0 {
        base + " // "@ + description
    } else {
        description
    };
    lemma_trim_one_line(full);
}

/// The texts of a statement that is read from a message whose texts stay
/// on one line each stay on one line each.
pub proof fn lemma_statement_texts_fit(m: MessageView)
    requires
        message_one_line(m),
        statement_of(m) is Ok,
    ensures
        texts_fit(statement_of(m)->Ok_0),
{
    let s = statement_of(m)->Ok_0;
    let n = m.entries.len() as int;
    lemma_each_read_transaction(m.entries, n);
    assert forall|i: int| 0 <= i < s.transactions.len() implies (line_86(
        #[trigger] s.transactions[i],
    ) matches Some(info) ==> forall|j: int| 0 <= j < info.len() ==> info[j] != '\n') by {
        let e = m.entries[i];
        assert(entry_one_line(e));
        assert(transaction_of(e) == Ok::<TransactionView, ErrorKind>(s.transactions[i]));
        lemma_description_one_line(e);
        lemma_counterparty_one_line(e);
        lemma_line_86_one_line(s.transactions[i]);
    }
}

/// What is left of a text without a line feed when its first characters
/// are dropped, or when only they are kept, holds none.
pub proof fn lemma_cut_one_line(s: Seq<char>, at: int)
    requires
        one_line(s),
        0 <= at <= s.len(),
    ensures
        one_line(s.skip(at)),
        one_line(s.take(at)),
{
    lemma_part_one_line(s, at, s.len() as int);
    lemma_part_one_line(s, 0, at);
    assert(s.skip(at) =~= s.subrange(at, s.len() as int));
    assert(s.take(at) =~= s.subrange(0, at));
}

/// A text without a line feed holds none once the white space before it is
/// dropped.
pub proof fn lemma_trim_start_one_line(s: Seq<char>)
    requires
        one_line(s),
    ensures
        one_line(trim_start(s)),
{
    lemma_run_end_props(s, CharClass::Whitespace, 0);
    lemma_cut_one_line(s, run_end(s, CharClass::Whitespace, 0));
}

/// The references that are read from a tail without a line feed hold none.
pub proof fn lemma_references_one_line(rest: Seq<char>)
    requires
        one_line(rest),
    ensures
        one_line_if_any(references_of(rest).0),
        one_line_if_any(references_of(rest).1),
        one_line_if_any(references_of(rest).2),
{
    reveal_strlit("//");
    lemma_trim_one_line(rest);
    match find(rest, "//"@) {
        Some(pos) => {
            crate::text::lemma_find_props(rest, "//"@, 0);
            lemma_cut_one_line(rest, pos);
            lemma_cut_one_line(rest, pos + 2);
            lemma_trim_one_line(rest.take(pos));
            let after = rest.skip(pos + 2);
            lemma_trim_one_line(after);
            lemma_run_end_props(after, CharClass::Except(' '), 0);
            let space = run_end(after, CharClass::Except(' '), 0);
            lemma_cut_one_line(after, space);
            lemma_trim_one_line(after.skip(space));
            lemma_trim_one_line(after.take(space));
        },
        None => {},
    }
}

/// The entry that is read from a `:61:` line without a line feed holds
/// none in its texts.
pub proof fn lemma_entry_one_line(value: Seq<char>, raw_61: Seq<char>)
    requires
        one_line(value),
        one_line(raw_61),
        entry_of(value, raw_61) is Ok,
    ensures
        entry_one_line(entry_of(value, raw_61)->Ok_0),
{
    let v = trim(value);
    lemma_trim_one_line(value);
    let idx: int = if all_in(v, CharClass::AsciiDigit, 6, 4) {
        10
    } else {
        6
    };
    lemma_cut_one_line(v, idx);
    let r = v.skip(idx);
    let has_funds_code = r.len() > 1 && is_ascii_alphabetic(r[1]) && r[1] != 'C' && r[1] != 'D';
    let start: int = if has_funds_code {
        2
    } else {
        1
    };
    lemma_run_end_props(r, CharClass::Amount, start);
    let end = run_end(r, CharClass::Amount, start);
    lemma_cut_one_line(r, end);
    let tail = r.skip(end);
    assert(dc_and_amount_of(r)->Ok_0.3 == tail);
    let typed = all_in(tail, CharClass::AsciiAlphabetic, 0, 4);
    if typed {
        lemma_cut_one_line(tail, 4);
        lemma_trim_start_one_line(tail.skip(4));
    }
    let rest = if typed {
        trim_start(tail.skip(4))
    } else {
        tail
    };
    lemma_references_one_line(rest);
    let e = entry_of(value, raw_61)->Ok_0;
    assert(e.info =~= Seq::<Seq<char>>::empty());
}

/// Whether a text that is not empty does not end with a carriage return.
pub open spec fn ends_clean(s: Seq<char>) -> bool {
    s.len() > 0 ==> s.last() != '\r'
}

/// A line without its trailing carriage returns and the white space before
/// it holds no line feed where the line holds none, and does not end with a
/// carriage return.
pub proof fn lemma_tag_line_text(raw: Seq<char>)
    requires
        one_line(raw),
    ensures
        one_line(trim_start(strip_end(raw, CharClass::Only('\r')))),
        ends_clean(trim_start(strip_end(raw, CharClass::Only('\r')))),
{
    let cr = CharClass::Only('\r');
    lemma_run_start_props(raw, cr, raw.len() as int);
    let b = run_start(raw, cr, raw.len() as int);
    let u = strip_end(raw, cr);
    lemma_cut_one_line(raw, b);
    lemma_trim_start_one_line(u);
    lemma_run_end_props(u, CharClass::Whitespace, 0);
    let t = trim_start(u);
    if t.len() > 0 {
        assert(t.last() == u.last());
        assert(u.last() == raw[b - 1]);
    }
}

/// The value of a tag line is the end of the line: it holds no line feed
/// and does not end with a carriage return where the line does neither.
pub proof fn lemma_tag_value(t: Seq<char>)
    requires
        one_line(t),
        ends_clean(t),
        tag_line_of(t) is Ok,
    ensures
        one_line(tag_line_of(t)->Ok_0.1),
        ends_clean(tag_line_of(t)->Ok_0.1),
{
    lemma_run_end_props(t, CharClass::Whitespace, 0);
    lemma_trim_start_one_line(t);
    let l = trim_start(t);
    lemma_run_end_props(l, CharClass::Except(':'), 1);
    let end = run_end(l, CharClass::Except(':'), 1);
    lemma_cut_one_line(l, end + 1);
    let value = l.skip(end + 1);
    if value.len() > 0 {
        assert(value.last() == l.last());
        assert(l.last() == t.last());
    }
}

/// Whether the texts that a draft has gathered stay on one line each.
pub open spec fn draft_one_line(d: MessageDraft) -> bool {
    &&& d.account_id matches Some(a) ==> fits_line(a)
    &&& forall|i: int| 0 <= i < d.entries.len() ==> entry_one_line(#[trigger] d.entries[i])
    &&& d.open_entry matches Some(e) ==> entry_one_line(e)
}

/// One more line of free text without a line feed leaves the texts of a
/// draft on one line each.
pub proof fn lemma_with_info_one_line(d: MessageDraft, text: Seq<char>)
    requires
        draft_one_line(d),
        one_line(text),
    ensures
        draft_one_line(d.with_info(text)),
{
    match d.open_entry {
        Some(e) => {
            let info = e.info.push(text);
            assert forall|i: int| 0 <= i < info.len() implies one_line(#[trigger] info[i]) by {
                if i < e.info.len() {
                    assert(info[i] == e.info[i]);
                }
            }
        },
        None => {},
    }
}

/// The complete entries of a draft and its open entry hold no line feed
/// where the draft holds none.
pub proof fn lemma_all_entries_one_line(d: MessageDraft)
    requires
        draft_one_line(d),
    ensures
        forall|i: int|
            0 <= i < d.all_entries().len() ==> entry_one_line(#[trigger] d.all_entries()[i]),
{
    let all = d.all_entries();
    assert forall|i: int| 0 <= i < all.len() implies entry_one_line(#[trigger] all[i]) by {
        if i < d.entries.len() {
            assert(all[i] == d.entries[i]);
        }
    }
}

/// A line without a line feed leaves the texts of a draft on one line
/// each.
pub proof fn lemma_read_one_line(d: MessageDraft, raw: Seq<char>)
    requires
        draft_one_line(d),
        one_line(raw),
        d.read(raw) is Ok,
    ensures
        draft_one_line(d.read(raw)->Ok_0),
{
    let t = trim_start(strip_end(raw, CharClass::Only('\r')));
    lemma_tag_line_text(raw);
    lemma_all_entries_one_line(d);
    if starts_with(t, ":"@) {
        lemma_tag_value(t);
        let tag = tag_line_of(t)->Ok_0.0;
        let value = tag_line_of(t)->Ok_0.1;
        lemma_trim_one_line(value);
        lemma_with_info_one_line(d, trim(value));
        if tag == "61"@ {
            crate::laws::mt940::lemma_tags();
            lemma_entry_one_line(value, t);
        }
    } else {
        lemma_trim_one_line(t);
        lemma_with_info_one_line(d, trim(t));
    }
}

/// Lines without a line feed leave the texts of a draft on one line each.
pub proof fn lemma_read_all_one_line(d: MessageDraft, lines: Seq<Seq<char>>, from: int)
    requires
        draft_one_line(d),
        one_line_each(lines),
        d.read_all(lines, from) is Ok,
    ensures
        draft_one_line(d.read_all(lines, from)->Ok_0),
    decreases lines.len() - from,
{
    if 0 <= from < lines.len() {
        assert(one_line(lines[from]));
        lemma_read_one_line(d, lines[from]);
        lemma_read_all_one_line(d.read(lines[from])->Ok_0, lines, from + 1);
    }
}

/// The texts of a message that is read from lines without a line feed
/// stay on one line each.
pub proof fn lemma_message_one_line(lines: Seq<Seq<char>>)
    requires
        one_line_each(lines),
        message_of(lines) is Ok,
    ensures
        message_one_line(message_of(lines)->Ok_0),
{
    let d0 = MessageDraft::empty();
    lemma_read_all_one_line(d0, lines, 0);
    let d = d0.read_all(lines, 0)->Ok_0;
    lemma_all_entries_one_line(d);
}

/// The lines of a text hold no line feed.
pub proof fn lemma_lines_one_line(s: Seq<char>, from: int)
    ensures
        one_line_each(lines_from(s, from)),
    decreases s.len() - from,
{
    if 0 <= from < s.len() {
        let cls = CharClass::Except('\n');
        lemma_run_end_props(s, cls, from);
        let e = run_end(s, cls, from);
        let whole = s.subrange(from, e);
        assert forall|i: int| 0 <= i < whole.len() implies whole[i] != '\n' by {
            assert(whole[i] == s[from + i]);
            assert(cls.has(s[from + i]));
        }
        if e >= s.len() {
            assert(s.subrange(from, s.len() as int) =~= whole);
        } else {
            let first = chomp_cr(whole);
            assert forall|i: int| 0 <= i < first.len() implies first[i] != '\n' by {
                assert(first[i] == whole[i]);
            }
            lemma_lines_one_line(s, e + 1);
            let rest = lines_from(s, e + 1);
            let all = lines_from(s, from);
            assert(all =~= seq![first] + rest);
            assert forall|i: int| 0 <= i < all.len() implies one_line(#[trigger] all[i]) by {
                if i > 0 {
                    assert(all[i] == rest[i - 1]);
                }
            }
        }
    }
}

/// Whether the texts that the framing has gathered stay on one line each:
/// the lines of the open block, and the texts of the first message.
pub open spec fn framing_one_line(f: Framing) -> bool {
    &&& one_line_each(f.body)
    &&& f.first matches Some(m) ==> message_one_line(m)
}

/// One more line without a line feed for the open block leaves its lines
/// without one.
pub proof fn lemma_body_one_line(body: Seq<Seq<char>>, line: Seq<char>)
    requires
        one_line_each(body),
        one_line(line),
    ensures
        one_line_each(body.push(line)),
{
    let more = body.push(line);
    assert forall|i: int| 0 <= i < more.len() implies one_line(#[trigger] more[i]) by {
        if i < body.len() {
            assert(more[i] == body[i]);
        }
    }
}

/// A block that opens on a line without a line feed leaves the texts of
/// the framing on one line each.
pub proof fn lemma_open_one_line(f: Framing, kind: BlockKind, line: Seq<char>, at: int)
    requires
        framing_one_line(f),
        one_line(line),
        0 <= at,
        at + 3 <= line.len(),
    ensures
        framing_one_line(f.open_block(kind, line.skip(at + 3))),
{
    lemma_cut_one_line(line, at + 3);
    lemma_body_one_line(f.body, line.skip(at + 3));
}

/// A block of lines without a line feed that closes leaves the texts of
/// the framing on one line each.
pub proof fn lemma_close_one_line(f: Framing)
    requires
        framing_one_line(f),
        f.close_block() is Ok,
    ensures
        framing_one_line(f.close_block()->Ok_0),
{
    lemma_message_one_line(f.body);
}

/// A line without a line feed leaves the texts of the framing on one line
/// each.
pub proof fn lemma_frame_read_one_line(f: Framing, line: Seq<char>)
    requires
        framing_one_line(f),
        one_line(line),
        f.read(line) is Ok,
    ensures
        framing_one_line(f.read(line)->Ok_0),
{
    reveal_strlit("{4:");
    reveal_strlit("(4:");
    crate::text::lemma_find_props(line, "{4:"@, 0);
    crate::text::lemma_find_props(line, "(4:"@, 0);
    if is_blank(line) {
    } else if !f.in_block {
        match (find(line, "{4:"@), find(line, "(4:"@)) {
            (Some(pc), Some(pp)) => {
                lemma_open_one_line(f, BlockKind::Curly, line, pc);
                lemma_open_one_line(f, BlockKind::Paren, line, pp);
            },
            (Some(pc), None) => {
                lemma_open_one_line(f, BlockKind::Curly, line, pc);
            },
            (None, Some(pp)) => {
                lemma_open_one_line(f, BlockKind::Paren, line, pp);
            },
            (None, None) => {},
        }
    } else {
        match f.kind {
            Some(k) => {
                if k.closes(trim(line)) {
                    lemma_close_one_line(f);
                } else {
                    lemma_body_one_line(f.body, line);
                }
            },
            None => {},
        }
    }
}

/// Lines without a line feed leave the texts of the framing on one line
/// each.
pub proof fn lemma_frame_read_all_one_line(f: Framing, lines: Seq<Seq<char>>, from: int)
    requires
        framing_one_line(f),
        one_line_each(lines),
        f.read_all(lines, from) is Ok,
    ensures
        framing_one_line(f.read_all(lines, from)->Ok_0),
    decreases lines.len() - from,
{
    if 0 <= from < lines.len() {
        assert(one_line(lines[from]));
        lemma_frame_read_one_line(f, lines[from]);
        lemma_frame_read_all_one_line(f.read(lines[from])->Ok_0, lines, from + 1);
    }
}

/// The texts of the first message of an MT940 text stay on one line each.
pub proof fn lemma_first_message_one_line(text: Seq<char>)
    requires
        first_message_of(text) is Ok,
    ensures
        message_one_line(first_message_of(text)->Ok_0.0),
{
    let f0 = Framing::start();
    lemma_lines_one_line(text, 0);
    lemma_frame_read_all_one_line(f0, lines(text), 0);
    let f = f0.read_all(lines(text), 0)->Ok_0;
    if f.in_block && f.body.len() > 0 {
        lemma_close_one_line(f);
    }
}

/// A statement that is read from an MT940 text, written as a message and
/// read again, comes back as it was: with its account, its currency where
/// that is one that the library knows by name, both balances, both ends of
/// its period, and each transaction with its booking date, its value date,
/// its amount and its direction; and where the free text of a transaction
/// that was read fits, with its description, its counterparty and the name
/// of its counterparty.
pub proof fn law_mt940_text_round_trip(text: Seq<char>)
    requires
        first_message_of(text) is Ok,
        statement_of(first_message_of(text)->Ok_0.0) is Ok,
    ensures
        ({
            let s = statement_of(first_message_of(text)->Ok_0.0)->Ok_0;
            let back = statement_of(read_message(s))->Ok_0;
            &&& first_message_of(mt940_text(s)) == Ok::<(MessageView, nat), ErrorKind>(
                (read_message(s), 1nat),
            )
            &&& statement_of(read_message(s)) is Ok
            &&& back.account_id == s.account_id
            &&& back.account_name == s.account_name
            &&& !(s.currency is Other) ==> back.currency == s.currency
            &&& back.opening_balance == s.opening_balance
            &&& back.closing_balance == s.closing_balance
            &&& back.period_from == s.period_from
            &&& back.period_until == s.period_until
            &&& back.transactions.len() == s.transactions.len()
            &&& forall|i: int|
                0 <= i < s.transactions.len() ==> {
                    let read = #[trigger] back.transactions[i];
                    let written = s.transactions[i];
                    &&& read.booking_date == written.booking_date
                    &&& read.value_date == written.value_date
                    &&& read.amount == written.amount
                    &&& read.direction == written.direction
                    &&& read_text_fits(written) ==> read.description == written.description
                        && read.counterparty == written.counterparty && read.counterparty_name
                        == written.counterparty_name
                }
        }),
{
    let m = first_message_of(text)->Ok_0.0;
    lemma_first_message_one_line(text);
    lemma_statement_texts_fit(m);
    law_mt940_read_again(m);
}

} // verus!
