//! The lines of an MT940 message.

use crate::date::{mmdd_text, yymmdd_text, Date};
use crate::model::{
    text_of, transaction_views, Balance, Currency, CurrencyView, Direction, Statement,
    StatementView, Transaction, TransactionView,
};
use crate::serialization::common::{format_amount, format_units, minor_units_text};
use crate::text::{chars_of, push_chars, push_str, string_of, trim, trim_of, unlines};
use vstd::prelude::*;

verus! {

/// The three-letter code of a currency; `XXX` for one outside the table.
pub open spec fn currency_code_text(cur: CurrencyView) -> Seq<char> {
    match cur {
        CurrencyView::RUB => "RUB"@,
        CurrencyView::EUR => "EUR"@,
        CurrencyView::USD => "USD"@,
        CurrencyView::CNY => "CNY"@,
        CurrencyView::Other(_) => "XXX"@,
    }
}

/// The three-letter code under which MT940 names a currency.
pub fn currency_code(cur: &Currency) -> (r: &'static str)
    ensures
        r@ == currency_code_text(cur@),
{
    match cur {
        Currency::RUB => "RUB",
        Currency::EUR => "EUR",
        Currency::USD => "USD",
        Currency::CNY => "CNY",
        Currency::Other(_) => "XXX",
    }
}

/// A date as `YYMMDD`.
pub fn format_yymmdd(date: Date) -> (r: String)
    ensures
        r@ == yymmdd_text(date@),
{
    date.format_yymmdd()
}

/// The mark of a direction.
pub open spec fn mark_of(direction: Direction) -> char {
    match direction {
        Direction::Debit => 'D',
        Direction::Credit => 'C',
    }
}

/// The value of a `:61:` line: value date, or booking date where there is
/// none, as `YYMMDD`; booking date as `MMDD`; direction mark; and the amount
/// with a comma before the hundredths.
pub open spec fn line_61(tx: TransactionView) -> Seq<char> {
    let value_date = match tx.value_date {
        Some(d) => d,
        None => tx.booking_date,
    };
    yymmdd_text(value_date) + mmdd_text(tx.booking_date) + seq![mark_of(tx.direction)]
        + minor_units_text(tx.amount as int, ',')
}

/// Writes the value of the `:61:` line of a transaction.
pub fn format_61_line(tx: &Transaction) -> (r: String)
    ensures
        r@ == line_61(tx@),
{
    let value_date = match tx.value_date {
        Some(d) => d,
        None => tx.booking_date,
    };
    let mut out: Vec<char> = Vec::new();
    push_str(&mut out, format_yymmdd(value_date).as_str());
    push_str(&mut out, tx.booking_date.format_mmdd().as_str());
    out.push(
        match tx.direction {
            Direction::Debit => 'D',
            Direction::Credit => 'C',
        },
    );
    push_str(&mut out, format_amount(tx.amount, ',').as_str());
    assert(out@ =~= line_61(tx@));
    string_of(out.as_slice())
}

/// The value of the `:86:` line of a transaction: counterparty and its
/// name, each trimmed and only where it says something, with a space between
/// them; then the trimmed description, behind ` // ` where anything stands
/// before it. Nothing where all three are empty.
pub open spec fn line_86(tx: TransactionView) -> Option<Seq<char>> {
    let account = match tx.counterparty {
        Some(c) => trim(c),
        None => Seq::empty(),
    };
    let name = match tx.counterparty_name {
        Some(n) => trim(n),
        None => Seq::empty(),
    };
    let base = if account.len() > 0 && name.len() > 0 {
        account + " "@ + name
    } else if account.len() > 0 {
        account
    } else {
        name
    };
    let description = trim(tx.description);
    let full = if description.len() == 0 {
        base
    } else if base.len() > 0 {
        base + " // "@ + description
    } else {
        description
    };
    if trim(full).len() == 0 {
        None
    } else {
        Some(trim(full))
    }
}

/// Writes the value of the `:86:` line of a transaction, if it has any.
pub fn format_86_line(tx: &Transaction) -> (r: Option<String>)
    ensures
        crate::model::text_of(r) == line_86(tx@),
{
    let mut base: Vec<char> = Vec::new();
    if let Some(account) = &tx.counterparty {
        let chars = chars_of(account.as_str());
        push_chars(&mut base, trim_of(chars.as_slice()));
    }
    if let Some(name) = &tx.counterparty_name {
        let chars = chars_of(name.as_str());
        let name = trim_of(chars.as_slice());
        if name.len() > 0 {
            if base.len() > 0 {
                push_str(&mut base, " ");
            }
            push_chars(&mut base, name);
        }
    }
    let chars = chars_of(tx.description.as_str());
    let description = trim_of(chars.as_slice());
    if description.len() > 0 {
        if base.len() > 0 {
            push_str(&mut base, " // ");
        }
        push_chars(&mut base, description);
    }
    let full = trim_of(base.as_slice());
    proof {
        let account = match tx@.counterparty {
            Some(c) => trim(c),
            None => Seq::empty(),
        };
        let name = match tx@.counterparty_name {
            Some(n) => trim(n),
            None => Seq::empty(),
        };
        let spec_base = if account.len() > 0 && name.len() > 0 {
            account + " "@ + name
        } else if account.len() > 0 {
            account
        } else {
            name
        };
        let spec_full = if description@.len() == 0 {
            spec_base
        } else if spec_base.len() > 0 {
            spec_base + " // "@ + description@
        } else {
            description@
        };
        assert(base@ =~= spec_full);
    }
    if full.len() == 0 {
        None
    } else {
        Some(string_of(full))
    }
}

/// The value of a balance line: mark of the sign, date as `YYMMDD`,
/// currency code and the magnitude with a comma before the hundredths.
pub open spec fn balance_text(balance: Balance, date: (int, int, int), code: Seq<char>) -> Seq<
    char,
> {
    seq![if balance >= 0 {
        'C'
    } else {
        'D'
    }] + yymmdd_text(date) + code + minor_units_text(balance as int, ',')
}

/// The lines of one transaction: its `:61:` line and, where it has free
/// text, its `:86:` line.
pub open spec fn entry_lines(tx: TransactionView) -> Seq<Seq<char>> {
    seq![":61:"@ + line_61(tx)] + match line_86(tx) {
        Some(info) => seq![":86:"@ + info],
        None => Seq::empty(),
    }
}

/// The lines of the first `n` transactions.
pub open spec fn entries_lines(txs: Seq<TransactionView>, n: int) -> Seq<Seq<char>>
    decreases n,
{
    if n <= 0 {
        Seq::empty()
    } else {
        entries_lines(txs, n - 1) + entry_lines(txs[n - 1])
    }
}

/// The balance with which a statement opens its message: its opening
/// balance, or zero where it has none.
pub open spec fn written_opening(s: StatementView) -> Balance {
    match s.opening_balance {
        Some(b) => b,
        None => 0,
    }
}

/// The lines between the delimiters of the message of a statement:
/// reference, account, statement number, opening balance, the transactions,
/// and the closing balance where there is one.
pub open spec fn mt940_body(s: StatementView) -> Seq<Seq<char>> {
    let code = currency_code_text(s.currency);
    seq![
        ":20:SERIALIZED"@,
        ":25:"@ + s.account_id,
        ":28C:1/1"@,
        ":60F:"@ + balance_text(written_opening(s), s.period_from, code),
    ] + entries_lines(s.transactions, s.transactions.len() as int) + match s.closing_balance {
        Some(b) => seq![":62F:"@ + balance_text(b, s.period_until, code)],
        None => Seq::empty(),
    }
}

/// The lines of the message of a statement: its body in a curly text block.
pub open spec fn mt940_lines(s: StatementView) -> Seq<Seq<char>> {
    seq!["{4:"@] + mt940_body(s) + seq!["-}"@]
}

/// A statement as one MT940 message: its lines, each ended by a line feed.
pub open spec fn mt940_text(s: StatementView) -> Seq<char> {
    unlines(mt940_lines(s))
}

/// A text under construction, with the lines that it is made of.
struct Page {
    text: Vec<char>,
    lines: Ghost<Seq<Seq<char>>>,
}

impl Page {
    spec fn wf(&self) -> bool {
        self.text@ == unlines(self.lines@)
    }

    fn new() -> (r: Page)
        ensures
            r.wf(),
            r.lines@ == Seq::<Seq<char>>::empty(),
    {
        Page { text: Vec::new(), lines: Ghost(Seq::empty()) }
    }

    fn line(&mut self, tag: &str, value: &str)
        requires
            old(self).wf(),
        ensures
            final(self).wf(),
            final(self).lines@ == old(self).lines@.push(tag@ + value@),
    {
        let ghost before = self.lines@;
        push_str(&mut self.text, tag);
        push_str(&mut self.text, value);
        self.text.push('\n');
        self.lines = Ghost(before.push(tag@ + value@));
        proof {
            let after = self.lines@;
            assert(after.drop_last() =~= before);
            assert(self.text@ =~= unlines(before) + after.last() + seq!['\n']);
        }
    }
}

fn balance_value(balance: Balance, date: Date, code: &str) -> (r: String)
    ensures
        r@ == balance_text(balance, date@, code@),
{
    let mut out: Vec<char> = Vec::new();
    out.push(
        if balance >= 0 {
            'C'
        } else {
            'D'
        },
    );
    push_str(&mut out, format_yymmdd(date).as_str());
    push_str(&mut out, code);
    push_str(&mut out, format_units(balance, ',').as_str());
    assert(out@ =~= balance_text(balance, date@, code@));
    string_of(out.as_slice())
}

/// Writes a statement as the text of one MT940 message.
pub fn mt940_message_text(stmt: &Statement) -> (r: String)
    ensures
        r@ == mt940_text(stmt@),
{
    proof {
        reveal_strlit("");
        assert(""@ =~= Seq::<char>::empty());
    }
    let ghost s = stmt@;
    let ghost txs = s.transactions;
    let mut page = Page::new();
    let code = currency_code(&stmt.currency);
    page.line("{4:", "");
    page.line(":20:SERIALIZED", "");
    page.line(":25:", stmt.account_id.as_str());
    page.line(":28C:1/1", "");
    let opening = match stmt.opening_balance {
        Some(b) => b,
        None => 0,
    };
    page.line(":60F:", balance_value(opening, stmt.period_from, code).as_str());
    let ghost head = page.lines@;
    assert(head =~= seq![
        "{4:"@,
        ":20:SERIALIZED"@,
        ":25:"@ + s.account_id,
        ":28C:1/1"@,
        ":60F:"@ + balance_text(written_opening(s), s.period_from, code@),
    ]) by {
        assert("{4:"@ + ""@ =~= "{4:"@);
        assert(":20:SERIALIZED"@ + ""@ =~= ":20:SERIALIZED"@);
        assert(":28C:1/1"@ + ""@ =~= ":28C:1/1"@);
    }
    let mut i: usize = 0;
    while i < stmt.transactions.len()
        invariant
            i <= stmt.transactions.len(),
            txs == transaction_views(stmt.transactions@),
            page.wf(),
            page.lines@ == head + entries_lines(txs, i as int),
        decreases stmt.transactions.len() - i,
    {
        let tx = &stmt.transactions[i];
        assert(txs[i as int] == tx@);
        page.line(":61:", format_61_line(tx).as_str());
        if let Some(info) = format_86_line(tx) {
            page.line(":86:", info.as_str());
        }
        assert(page.lines@ =~= head + entries_lines(txs, i + 1));
        i += 1;
    }
    if let Some(closing) = stmt.closing_balance {
        page.line(":62F:", balance_value(closing, stmt.period_until, code).as_str());
    }
    page.line("-}", "");
    assert(page.lines@ =~= mt940_lines(s)) by {
        assert("-}"@ + ""@ =~= "-}"@);
    }
    string_of(page.text.as_slice())
}

} // verus!
