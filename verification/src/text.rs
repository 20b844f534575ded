//! Character-level text primitives.
//!
//! Every format handled by this crate is line- and column-oriented text, so
//! the codecs are written against a small vocabulary of scanning operations
//! whose meaning is given over `Seq<char>`.

use vstd::prelude::*;

verus! {

/// `String::push` appends exactly one character at the end.
pub assume_specification[ String::push ](s: &mut String, c: char)
    ensures
        final(s)@ == old(s)@.push(c),
;

/// The characters that carry the Unicode `White_Space` property.
pub open spec fn is_whitespace(c: char) -> bool {
    ||| '\u{9}' <= c <= '\u{d}'
    ||| c == ' '
    ||| c == '\u{85}'
    ||| c == '\u{a0}'
    ||| c == '\u{1680}'
    ||| '\u{2000}' <= c <= '\u{200a}'
    ||| c == '\u{2028}'
    ||| c == '\u{2029}'
    ||| c == '\u{202f}'
    ||| c == '\u{205f}'
    ||| c == '\u{3000}'
}

/// `0` to `9`.
pub open spec fn is_ascii_digit(c: char) -> bool {
    '0' <= c <= '9'
}

/// `a` to `z` and `A` to `Z`.
pub open spec fn is_ascii_alphabetic(c: char) -> bool {
    ('a' <= c <= 'z') || ('A' <= c <= 'Z')
}

/// ASCII letters and digits.
pub open spec fn is_ascii_alphanumeric(c: char) -> bool {
    is_ascii_digit(c) || is_ascii_alphabetic(c)
}

/// A set of characters that a scanner can run over.
#[derive(Clone, Copy, Debug)]
pub enum CharClass {
    /// Unicode white space.
    Whitespace,
    /// Everything but Unicode white space.
    NonWhitespace,
    /// One given character.
    Only(char),
    /// Everything but one given character.
    Except(char),
    /// `0` to `9`.
    AsciiDigit,
    /// `a` to `z` and `A` to `Z`.
    AsciiAlphabetic,
    /// Everything but ASCII letters and digits.
    NonAsciiAlphanumeric,
    /// The characters of a decimal amount: digits, `,` and `.`.
    Amount,
    /// What may trail a written-out date: white space, `.` and `г`.
    DateTail,
}

impl CharClass {
    /// Membership of `c` in the class.
    pub open spec fn has(self, c: char) -> bool {
        match self {
            CharClass::Whitespace => is_whitespace(c),
            CharClass::NonWhitespace => !is_whitespace(c),
            CharClass::Only(x) => c == x,
            CharClass::Except(x) => c != x,
            CharClass::AsciiDigit => is_ascii_digit(c),
            CharClass::AsciiAlphabetic => is_ascii_alphabetic(c),
            CharClass::NonAsciiAlphanumeric => !is_ascii_alphanumeric(c),
            CharClass::Amount => is_ascii_digit(c) || c == ',' || c == '.',
            CharClass::DateTail => is_whitespace(c) || c == '.' || c == 'г',
        }
    }

    /// Tests membership of `c` in the class.
    pub fn contains(self, c: char) -> (r: bool)
        ensures
            r == self.has(c),
    {
        match self {
            CharClass::Whitespace => char_is_whitespace(c),
            CharClass::NonWhitespace => !char_is_whitespace(c),
            CharClass::Only(x) => c == x,
            CharClass::Except(x) => c != x,
            CharClass::AsciiDigit => char_is_ascii_digit(c),
            CharClass::AsciiAlphabetic => char_is_ascii_alphabetic(c),
            CharClass::NonAsciiAlphanumeric => !(char_is_ascii_digit(c)
                || char_is_ascii_alphabetic(c)),
            CharClass::Amount => char_is_ascii_digit(c) || c == ',' || c == '.',
            CharClass::DateTail => char_is_whitespace(c) || c == '.' || c == 'г',
        }
    }
}

/// Tests whether a character is white space.
pub fn char_is_whitespace(c: char) -> (r: bool)
    ensures
        r == is_whitespace(c),
{
    ('\u{9}' <= c && c <= '\u{d}') || c == ' ' || c == '\u{85}' || c == '\u{a0}' || c
        == '\u{1680}' || ('\u{2000}' <= c && c <= '\u{200a}') || c == '\u{2028}' || c
        == '\u{2029}' || c == '\u{202f}' || c == '\u{205f}' || c == '\u{3000}'
}

/// Tests whether a character is an ASCII digit.
pub fn char_is_ascii_digit(c: char) -> (r: bool)
    ensures
        r == is_ascii_digit(c),
{
    '0' <= c && c <= '9'
}

/// Tests whether a character is an ASCII letter.
pub fn char_is_ascii_alphabetic(c: char) -> (r: bool)
    ensures
        r == is_ascii_alphabetic(c),
{
    ('a' <= c && c <= 'z') || ('A' <= c && c <= 'Z')
}

/// The characters of a string slice, in order.
pub fn chars_of(s: &str) -> (v: Vec<char>)
    ensures
        v@ == s@,
{
    let mut v: Vec<char> = Vec::new();
    for c in it: s.chars()
        invariant
            v@ == it.seq().take(it.index()),
    {
        v.push(c);
    }
    v
}

/// The string made of the given characters, in order.
pub fn string_of(s: &[char]) -> (r: String)
    ensures
        r@ == s@,
{
    let mut r = String::new();
    let mut i: usize = 0;
    while i < s.len()
        invariant
            i <= s.len(),
            r@ == s@.take(i as int),
        decreases s.len() - i,
    {
        r.push(s[i]);
        i += 1;
    }
    assert(s@.take(s.len() as int) == s@);
    r
}

/// Where a run of characters of `cls` that starts at `from` ends: the index
/// of the first character at or after `from` that is not in `cls`, or the
/// length of `s` if there is none.
pub open spec fn run_end(s: Seq<char>, cls: CharClass, from: int) -> int
    decreases s.len() - from,
{
    if 0 <= from < s.len() && cls.has(s[from]) {
        run_end(s, cls, from + 1)
    } else {
        from
    }
}

/// Where a run of characters of `cls` that ends just before `to` starts.
pub open spec fn run_start(s: Seq<char>, cls: CharClass, to: int) -> int
    decreases to,
{
    if 0 < to <= s.len() && cls.has(s[to - 1]) {
        run_start(s, cls, to - 1)
    } else {
        to
    }
}

/// `run_end` is the one index that closes an unbroken run.
pub proof fn lemma_run_end(s: Seq<char>, cls: CharClass, from: int, to: int)
    requires
        0 <= from <= to <= s.len(),
        forall|i: int| from <= i < to ==> cls.has(#[trigger] s[i]),
        to < s.len() ==> !cls.has(s[to]),
    ensures
        run_end(s, cls, from) == to,
    decreases to - from,
{
    if from < to {
        lemma_run_end(s, cls, from + 1, to);
    }
}

/// A run goes on as far as the characters of its class do.
pub proof fn lemma_run_reaches(s: Seq<char>, cls: CharClass, from: int, to: int)
    requires
        0 <= from <= to <= s.len(),
        forall|i: int| from <= i < to ==> cls.has(#[trigger] s[i]),
    ensures
        run_end(s, cls, from) >= to,
    decreases to - from,
{
    if from < to {
        lemma_run_reaches(s, cls, from + 1, to);
    } else {
        lemma_run_end_props(s, cls, from);
    }
}

/// What `run_end` returns closes an unbroken run.
pub proof fn lemma_run_end_props(s: Seq<char>, cls: CharClass, from: int)
    requires
        0 <= from <= s.len(),
    ensures
        from <= run_end(s, cls, from) <= s.len(),
        forall|i: int| from <= i < run_end(s, cls, from) ==> cls.has(#[trigger] s[i]),
        run_end(s, cls, from) < s.len() ==> !cls.has(s[run_end(s, cls, from)]),
    decreases s.len() - from,
{
    if from < s.len() && cls.has(s[from]) {
        lemma_run_end_props(s, cls, from + 1);
    }
}

/// `run_start` is the one index that opens an unbroken run.
pub proof fn lemma_run_start(s: Seq<char>, cls: CharClass, from: int, to: int)
    requires
        0 <= from <= to <= s.len(),
        forall|i: int| from <= i < to ==> cls.has(#[trigger] s[i]),
        0 < from ==> !cls.has(s[from - 1]),
    ensures
        run_start(s, cls, to) == from,
    decreases to - from,
{
    if from < to {
        lemma_run_start(s, cls, from, to - 1);
    }
}

/// What `run_start` returns opens an unbroken run.
pub proof fn lemma_run_start_props(s: Seq<char>, cls: CharClass, to: int)
    requires
        0 <= to <= s.len(),
    ensures
        0 <= run_start(s, cls, to) <= to,
        forall|i: int| run_start(s, cls, to) <= i < to ==> cls.has(#[trigger] s[i]),
        0 < run_start(s, cls, to) ==> !cls.has(s[run_start(s, cls, to) - 1]),
    decreases to,
{
    if 0 < to && cls.has(s[to - 1]) {
        lemma_run_start_props(s, cls, to - 1);
    }
}

/// Scans forward from `from` over characters of `cls`.
pub fn scan_run(s: &[char], cls: CharClass, from: usize) -> (to: usize)
    requires
        from <= s.len(),
    ensures
        to == run_end(s@, cls, from as int),
        from <= to <= s.len(),
{
    let mut i = from;
    while i < s.len() && cls.contains(s[i])
        invariant
            from <= i <= s.len(),
            forall|k: int| from <= k < i ==> cls.has(#[trigger] s@[k]),
        decreases s.len() - i,
    {
        i += 1;
    }
    proof {
        lemma_run_end(s@, cls, from as int, i as int);
    }
    i
}

/// Scans backward from `to` over characters of `cls`.
pub fn scan_run_back(s: &[char], cls: CharClass, to: usize) -> (from: usize)
    requires
        to <= s.len(),
    ensures
        from == run_start(s@, cls, to as int),
        from <= to,
{
    let mut i = to;
    while i > 0 && cls.contains(s[i - 1])
        invariant
            0 <= i <= to <= s.len(),
            forall|k: int| i <= k < to ==> cls.has(#[trigger] s@[k]),
        decreases i,
    {
        i -= 1;
    }
    proof {
        lemma_run_start(s@, cls, i as int, to as int);
    }
    i
}

/// `s` without its leading characters of `cls`.
pub open spec fn strip_start(s: Seq<char>, cls: CharClass) -> Seq<char> {
    s.skip(run_end(s, cls, 0))
}

/// `s` without its trailing characters of `cls`.
pub open spec fn strip_end(s: Seq<char>, cls: CharClass) -> Seq<char> {
    s.take(run_start(s, cls, s.len() as int))
}

/// `s` without its leading and trailing characters of `cls`.
pub open spec fn strip(s: Seq<char>, cls: CharClass) -> Seq<char> {
    strip_end(strip_start(s, cls), cls)
}

/// `s` without leading and trailing white space.
pub open spec fn trim(s: Seq<char>) -> Seq<char> {
    strip(s, CharClass::Whitespace)
}

/// `s` without leading white space.
pub open spec fn trim_start(s: Seq<char>) -> Seq<char> {
    strip_start(s, CharClass::Whitespace)
}

/// Strips a text of its leading characters of a class.
pub fn strip_start_of(s: &[char], cls: CharClass) -> (r: &[char])
    ensures
        r@ == strip_start(s@, cls),
{
    let a = scan_run(s, cls, 0);
    vstd::slice::slice_subrange(s, a, s.len())
}

/// Strips a text of its trailing characters of a class.
pub fn strip_end_of(s: &[char], cls: CharClass) -> (r: &[char])
    ensures
        r@ == strip_end(s@, cls),
{
    let b = scan_run_back(s, cls, s.len());
    vstd::slice::slice_subrange(s, 0, b)
}

/// Strips a text of its leading and trailing characters of a class.
pub fn strip_of(s: &[char], cls: CharClass) -> (r: &[char])
    ensures
        r@ == strip(s@, cls),
{
    strip_end_of(strip_start_of(s, cls), cls)
}

/// Strips a text of the white space around it.
pub fn trim_of(s: &[char]) -> (r: &[char])
    ensures
        r@ == trim(s@),
{
    strip_of(s, CharClass::Whitespace)
}

/// Strips the part of `s` between `from` and `to` of its leading and
/// trailing characters of `cls`, and says where what is left lies in `s`.
pub fn strip_range(s: &[char], cls: CharClass, from: usize, to: usize) -> (r: (usize, usize))
    requires
        from <= to <= s.len(),
    ensures
        from <= r.0 <= r.1 <= to,
        s@.subrange(r.0 as int, r.1 as int) == strip(s@.subrange(from as int, to as int), cls),
{
    let part = vstd::slice::slice_subrange(s, from, to);
    let a = scan_run(part, cls, 0);
    let rest = vstd::slice::slice_subrange(part, a, part.len());
    let b = scan_run_back(rest, cls, rest.len());
    assert(s@.subrange(from + a, from + a + b) =~= rest@.take(b as int));
    (from + a, from + a + b)
}

/// Whether every character of `s` is white space (true of the empty text).
pub open spec fn is_blank(s: Seq<char>) -> bool {
    run_end(s, CharClass::Whitespace, 0) == s.len()
}

/// Tests whether a text holds nothing but white space.
pub fn blank(s: &[char]) -> (r: bool)
    ensures
        r == is_blank(s@),
        r == (trim(s@).len() == 0),
{
    let a = scan_run(s, CharClass::Whitespace, 0);
    proof {
        lemma_blank_trim(s@);
    }
    a == s.len()
}

/// A text is blank exactly when trimming leaves nothing.
pub proof fn lemma_blank_trim(s: Seq<char>)
    ensures
        is_blank(s) == (trim(s).len() == 0),
{
    let ws = CharClass::Whitespace;
    let a = run_end(s, ws, 0);
    lemma_run_end_props(s, ws, 0);
    let t = s.skip(a);
    lemma_run_start_props(t, ws, t.len() as int);
    if a < s.len() {
        assert(t[0] == s[a]);
        let b = run_start(t, ws, t.len() as int);
        if b == 0 {
            assert(ws.has(t[0]));
        }
    }
}

/// Trimming twice is trimming once.
pub proof fn lemma_trim_idempotent(s: Seq<char>)
    ensures
        trim(trim(s)) == trim(s),
{
    let ws = CharClass::Whitespace;
    let a = run_end(s, ws, 0);
    lemma_run_end_props(s, ws, 0);
    let t = s.skip(a);
    let b = run_start(t, ws, t.len() as int);
    lemma_run_start_props(t, ws, t.len() as int);
    let u = t.take(b);
    assert(u == trim(s));
    if u.len() > 0 {
        assert(u[0] == s[a]);
        assert(u[b - 1] == t[b - 1]);
    }
    lemma_run_end(u, ws, 0, 0);
    assert(u.skip(0) =~= u);
    lemma_run_start(u, ws, u.len() as int, u.len() as int);
    assert(u.take(u.len() as int) =~= u);
}

/// What is left of a text after trimming neither begins nor ends with
/// white space.
pub proof fn lemma_trim_ends(s: Seq<char>)
    ensures
        trim(s).len() > 0 ==> !is_whitespace(trim(s)[0]) && !is_whitespace(trim(s).last()),
{
    let ws = CharClass::Whitespace;
    let a = run_end(s, ws, 0);
    lemma_run_end_props(s, ws, 0);
    let t = s.skip(a);
    let b = run_start(t, ws, t.len() as int);
    lemma_run_start_props(t, ws, t.len() as int);
    let u = t.take(b);
    if u.len() > 0 {
        assert(u[0] == s[a]);
        assert(u[b - 1] == t[b - 1]);
    }
}

/// Trimming leaves alone a text that neither begins nor ends with white
/// space.
pub proof fn lemma_trim_identity(s: Seq<char>)
    requires
        s.len() > 0 ==> !is_whitespace(s[0]) && !is_whitespace(s.last()),
    ensures
        trim(s) == s,
        trim_start(s) == s,
{
    let ws = CharClass::Whitespace;
    lemma_run_end(s, ws, 0, 0);
    assert(s.skip(0) =~= s);
    lemma_run_start(s, ws, s.len() as int, s.len() as int);
    assert(s.take(s.len() as int) =~= s);
}

/// Removing a character leaves alone a text that does not hold it.
pub proof fn lemma_without_identity(s: Seq<char>, c: char)
    requires
        forall|i: int| 0 <= i < s.len() ==> s[i] != c,
    ensures
        without(s, c) == s,
    decreases s.len(),
{
    if s.len() > 0 {
        lemma_without_identity(s.drop_last(), c);
        assert(s.drop_last().push(s.last()) =~= s);
    }
}

/// Whether `needle` stands in `s` at index `i`.
pub open spec fn occurs_at(s: Seq<char>, needle: Seq<char>, i: int) -> bool {
    0 <= i && i + needle.len() <= s.len() && s.subrange(i, i + needle.len()) == needle
}

/// The first index at or after `from` at which `needle` stands in `s`.
pub open spec fn find_from(s: Seq<char>, needle: Seq<char>, from: int) -> Option<int>
    decreases s.len() + 1 - from,
{
    if from < 0 || from + needle.len() > s.len() {
        None
    } else if occurs_at(s, needle, from) {
        Some(from)
    } else {
        find_from(s, needle, from + 1)
    }
}

/// The first index at which `needle` stands in `s`.
pub open spec fn find(s: Seq<char>, needle: Seq<char>) -> Option<int> {
    find_from(s, needle, 0)
}

/// Whether `needle` stands somewhere in `s`.
pub open spec fn contains(s: Seq<char>, needle: Seq<char>) -> bool {
    find(s, needle) is Some
}

/// Whether `s` begins with `prefix`.
pub open spec fn starts_with(s: Seq<char>, prefix: Seq<char>) -> bool {
    occurs_at(s, prefix, 0)
}

/// What `find_from` returns is an index of an occurrence, at or after
/// `from`.
pub proof fn lemma_find_props(s: Seq<char>, needle: Seq<char>, from: int)
    requires
        0 <= from,
    ensures
        find_from(s, needle, from) matches Some(at) ==> from <= at && occurs_at(s, needle, at),
    decreases s.len() + 1 - from,
{
    if from + needle.len() <= s.len() && !occurs_at(s, needle, from) {
        lemma_find_props(s, needle, from + 1);
    }
}

/// The least index of an occurrence is what `find_from` returns.
pub proof fn lemma_find_is(s: Seq<char>, needle: Seq<char>, from: int, at: int)
    requires
        0 <= from <= at,
        occurs_at(s, needle, at),
        forall|j: int| from <= j < at ==> !occurs_at(s, needle, j),
    ensures
        find_from(s, needle, from) == Some(at),
    decreases at - from,
{
    if from < at {
        lemma_find_is(s, needle, from + 1, at);
    }
}

/// No occurrence at or after `from` means that `find_from` finds nothing.
pub proof fn lemma_find_none(s: Seq<char>, needle: Seq<char>, from: int)
    requires
        0 <= from,
        forall|j: int| from <= j ==> !occurs_at(s, needle, j),
    ensures
        find_from(s, needle, from) is None,
    decreases s.len() + 1 - from,
{
    if from + needle.len() <= s.len() {
        lemma_find_none(s, needle, from + 1);
    }
}

/// Compares two texts, character by character.
pub fn equal(a: &[char], b: &[char]) -> (r: bool)
    ensures
        r == (a@ == b@),
{
    if a.len() != b.len() {
        return false;
    }
    let mut i: usize = 0;
    while i < a.len()
        invariant
            i <= a.len(),
            a.len() == b.len(),
            forall|k: int| 0 <= k < i ==> a@[k] == b@[k],
        decreases a.len() - i,
    {
        if a[i] != b[i] {
            return false;
        }
        i += 1;
    }
    assert(a@ =~= b@);
    true
}

/// Compares a text with a string, character by character.
pub fn equals_str(a: &[char], lit: &str) -> (r: bool)
    ensures
        r == (a@ == lit@),
{
    let b = chars_of(lit);
    equal(a, b.as_slice())
}

/// Tests whether a text stands in another at a given index.
pub fn is_at(s: &[char], needle: &[char], at: usize) -> (r: bool)
    ensures
        r == occurs_at(s@, needle@, at as int),
{
    if needle.len() > s.len() || at > s.len() - needle.len() {
        return false;
    }
    let part = vstd::slice::slice_subrange(s, at, at + needle.len());
    equal(part, needle)
}

/// Finds the first place at which a text stands in another.
pub fn find_in(s: &[char], needle: &[char]) -> (r: Option<usize>)
    ensures
        match r {
            Some(i) => find(s@, needle@) == Some(i as int) && occurs_at(s@, needle@, i as int),
            None => find(s@, needle@) is None,
        },
{
    if needle.len() > s.len() {
        return None;
    }
    if needle.len() == 0 {
        assert(s@.subrange(0, 0) =~= needle@);
        return Some(0);
    }
    let last = s.len() - needle.len();
    let mut i: usize = 0;
    while i <= last
        invariant
            0 <= i <= last + 1,
            last < s.len(),
            last == s.len() - needle.len(),
            find_from(s@, needle@, 0) == find_from(s@, needle@, i as int),
        decreases last + 1 - i,
    {
        if is_at(s, needle, i) {
            return Some(i);
        }
        i += 1;
    }
    None
}

/// Tests whether a text begins with another.
pub fn has_prefix(s: &[char], prefix: &[char]) -> (r: bool)
    ensures
        r == starts_with(s@, prefix@),
{
    is_at(s, prefix, 0)
}

/// Tests whether a text holds a character.
pub fn has_char(s: &[char], c: char) -> (r: bool)
    ensures
        r == s@.contains(c),
{
    let mut i: usize = 0;
    while i < s.len()
        invariant
            i <= s.len(),
            forall|k: int| 0 <= k < i ==> s@[k] != c,
        decreases s.len() - i,
    {
        if s[i] == c {
            return true;
        }
        i += 1;
    }
    false
}

/// `s` without any occurrence of the character `c`.
pub open spec fn without(s: Seq<char>, c: char) -> Seq<char>
    decreases s.len(),
{
    if s.len() == 0 {
        s
    } else if s.last() == c {
        without(s.drop_last(), c)
    } else {
        without(s.drop_last(), c).push(s.last())
    }
}

/// `s` with every occurrence of `from` turned into `to`.
pub open spec fn replaced(s: Seq<char>, from: char, to: char) -> Seq<char> {
    Seq::new(s.len(), |i: int| if s[i] == from { to } else { s[i] })
}

/// Takes every occurrence of a character out of a text.
pub fn remove_char(s: &[char], c: char) -> (r: Vec<char>)
    ensures
        r@ == without(s@, c),
{
    let mut r: Vec<char> = Vec::new();
    let mut i: usize = 0;
    while i < s.len()
        invariant
            i <= s.len(),
            r@ == without(s@.take(i as int), c),
        decreases s.len() - i,
    {
        assert(s@.take(i + 1).drop_last() == s@.take(i as int));
        if s[i] != c {
            r.push(s[i]);
        }
        i += 1;
    }
    assert(s@.take(s.len() as int) == s@);
    r
}

/// Turns every occurrence of a character into another.
pub fn replace_char(s: &[char], from: char, to: char) -> (r: Vec<char>)
    ensures
        r@ == replaced(s@, from, to),
{
    let mut r: Vec<char> = Vec::new();
    let mut i: usize = 0;
    while i < s.len()
        invariant
            i <= s.len(),
            r@.len() == i,
            forall|k: int| 0 <= k < i ==> r@[k] == (if s@[k] == from { to } else { s@[k] }),
        decreases s.len() - i,
    {
        r.push(if s[i] == from { to } else { s[i] });
        i += 1;
    }
    assert(r@ =~= replaced(s@, from, to));
    r
}

/// Appends the characters of a string to a buffer.
pub fn push_str(out: &mut Vec<char>, s: &str)
    ensures
        final(out)@ == old(out)@ + s@,
{
    let ghost start = out@;
    for c in it: s.chars()
        invariant
            out@ == start + it.seq().take(it.index()),
    {
        out.push(c);
        assert(start + it.seq().take(it.index()).push(c) =~= (start + it.seq().take(
            it.index(),
        )).push(c));
        assert(it.seq().take(it.index() + 1) =~= it.seq().take(it.index()).push(c));
    }
    assert(s@.take(s@.len() as int) == s@);
}

/// Appends a text to a buffer.
pub fn push_chars(out: &mut Vec<char>, s: &[char])
    ensures
        final(out)@ == old(out)@ + s@,
{
    let ghost start = out@;
    let mut i: usize = 0;
    while i < s.len()
        invariant
            i <= s.len(),
            out@ == start + s@.take(i as int),
        decreases s.len() - i,
    {
        out.push(s[i]);
        assert(s@.take(i + 1) =~= s@.take(i as int).push(s@[i as int]));
        assert(start + s@.take(i + 1) =~= (start + s@.take(i as int)).push(s@[i as int]));
        i += 1;
    }
    assert(s@.take(s.len() as int) == s@);
}

/// The texts that a vector of character vectors holds.
pub open spec fn views(v: Seq<Vec<char>>) -> Seq<Seq<char>> {
    Seq::new(v.len(), |i: int| v[i]@)
}

/// The texts that a vector of strings holds.
pub open spec fn string_views(v: Seq<String>) -> Seq<Seq<char>> {
    Seq::new(v.len(), |i: int| v[i]@)
}

/// The maximal runs of non-white-space characters of `s` that begin at or
/// after `from`, in order.
pub open spec fn tokens_from(s: Seq<char>, from: int) -> Seq<Seq<char>>
    decreases s.len() - from,
{
    let a = run_end(s, CharClass::Whitespace, from);
    if from < 0 || a >= s.len() {
        Seq::empty()
    } else {
        let b = run_end(s, CharClass::NonWhitespace, a);
        proof {
            lemma_run_end_props(s, CharClass::Whitespace, from);
            lemma_run_end_props(s, CharClass::NonWhitespace, a);
        }
        seq![s.subrange(a, b)] + tokens_from(s, b)
    }
}

/// The white-space separated words of `s`.
pub open spec fn tokens(s: Seq<char>) -> Seq<Seq<char>> {
    tokens_from(s, 0)
}

/// Splits a text into its words.
pub fn split_tokens(s: &[char]) -> (r: Vec<Vec<char>>)
    ensures
        views(r@) == tokens(s@),
{
    let mut r: Vec<Vec<char>> = Vec::new();
    let mut pos: usize = 0;
    loop
        invariant
            pos <= s.len(),
            tokens(s@) == views(r@) + tokens_from(s@, pos as int),
        decreases s.len() - pos,
    {
        let a = scan_run(s, CharClass::Whitespace, pos);
        if a >= s.len() {
            assert(views(r@) + Seq::<Seq<char>>::empty() =~= views(r@));
            return r;
        }
        let b = scan_run(s, CharClass::NonWhitespace, a);
        proof {
            lemma_run_end_props(s@, CharClass::Whitespace, pos as int);
            lemma_run_end_props(s@, CharClass::NonWhitespace, a as int);
        }
        let word = vstd::slice::slice_to_vec(vstd::slice::slice_subrange(s, a, b));
        let ghost before = r@;
        r.push(word);
        assert(views(r@) =~= views(before) + seq![s@.subrange(a as int, b as int)]);
        assert(views(before) + (seq![s@.subrange(a as int, b as int)] + tokens_from(
            s@,
            b as int,
        )) =~= views(r@) + tokens_from(s@, b as int));
        pos = b;
    }
}

/// `l` without one trailing carriage return.
pub open spec fn chomp_cr(l: Seq<char>) -> Seq<char> {
    if l.len() > 0 && l.last() == '\r' {
        l.drop_last()
    } else {
        l
    }
}

/// The lines of `s` that begin at or after `from`. A line ends at a line
/// feed, which is dropped together with a carriage return just before it;
/// what follows the last line feed is a line of its own unless it is empty.
pub open spec fn lines_from(s: Seq<char>, from: int) -> Seq<Seq<char>>
    decreases s.len() - from,
{
    if from < 0 || from >= s.len() {
        Seq::empty()
    } else {
        let e = run_end(s, CharClass::Except('\n'), from);
        proof {
            lemma_run_end_props(s, CharClass::Except('\n'), from);
        }
        if e >= s.len() {
            seq![s.subrange(from, s.len() as int)]
        } else {
            seq![chomp_cr(s.subrange(from, e))] + lines_from(s, e + 1)
        }
    }
}

/// The lines of `s`.
pub open spec fn lines(s: Seq<char>) -> Seq<Seq<char>> {
    lines_from(s, 0)
}

/// Splits a text into its lines.
pub fn split_lines(s: &[char]) -> (r: Vec<Vec<char>>)
    ensures
        views(r@) == lines(s@),
{
    let mut r: Vec<Vec<char>> = Vec::new();
    let mut pos: usize = 0;
    while pos < s.len()
        invariant
            pos <= s.len(),
            lines(s@) == views(r@) + lines_from(s@, pos as int),
        decreases s.len() - pos,
    {
        let e = scan_run(s, CharClass::Except('\n'), pos);
        let ghost before = r@;
        if e >= s.len() {
            let line = vstd::slice::slice_to_vec(vstd::slice::slice_subrange(s, pos, s.len()));
            r.push(line);
            assert(views(r@) =~= views(before) + seq![s@.subrange(pos as int, s.len() as int)]);
            assert(views(r@) + Seq::<Seq<char>>::empty() =~= views(r@));
            return r;
        }
        let end = if e > pos && s[e - 1] == '\r' {
            e - 1
        } else {
            e
        };
        let ghost piece = s@.subrange(pos as int, e as int);
        assert(chomp_cr(piece) =~= s@.subrange(pos as int, end as int)) by {
            if e > pos {
                assert(piece.last() == s@[e - 1]);
            }
        }
        let line = vstd::slice::slice_to_vec(vstd::slice::slice_subrange(s, pos, end));
        r.push(line);
        assert(views(r@) =~= views(before) + seq![chomp_cr(piece)]);
        assert(views(before) + (seq![chomp_cr(piece)] + lines_from(s@, e + 1)) =~= views(r@)
            + lines_from(s@, e + 1));
        pos = e + 1;
    }
    assert(views(r@) + Seq::<Seq<char>>::empty() =~= views(r@));
    r
}

/// The text made of the given lines, each ended by a line feed.
pub open spec fn unlines(ls: Seq<Seq<char>>) -> Seq<char>
    decreases ls.len(),
{
    if ls.len() == 0 {
        Seq::empty()
    } else {
        unlines(ls.drop_last()) + ls.last() + seq!['\n']
    }
}

/// The text of some lines begins with the first of them.
pub proof fn lemma_unlines_front(ls: Seq<Seq<char>>)
    requires
        ls.len() > 0,
    ensures
        unlines(ls) == ls[0] + seq!['\n'] + unlines(ls.skip(1)),
    decreases ls.len(),
{
    if ls.len() == 1 {
        assert(ls.drop_last() =~= Seq::<Seq<char>>::empty());
        assert(ls.skip(1) =~= Seq::<Seq<char>>::empty());
        assert(unlines(ls) =~= ls[0] + seq!['\n'] + unlines(ls.skip(1)));
    } else {
        lemma_unlines_front(ls.drop_last());
        assert(ls.drop_last().skip(1) =~= ls.skip(1).drop_last());
        assert(ls.skip(1).last() == ls.last());
        assert(ls.drop_last()[0] == ls[0]);
        assert(unlines(ls) =~= ls[0] + seq!['\n'] + unlines(ls.skip(1)));
    }
}

/// A run in a text without its first `k` characters is the run in the
/// whole text, counted from `k`.
pub proof fn lemma_run_end_shift(s: Seq<char>, cls: CharClass, k: int, from: int)
    requires
        0 <= k <= s.len(),
        0 <= from,
    ensures
        run_end(s, cls, from + k) == run_end(s.skip(k), cls, from) + k,
    decreases s.len() - from - k,
{
    if from + k < s.len() {
        assert(s.skip(k)[from] == s[from + k]);
        if cls.has(s[from + k]) {
            lemma_run_end_shift(s, cls, k, from + 1);
        }
    }
}

/// The lines of a text without its first `k` characters are the lines of
/// the whole text from `k` on.
pub proof fn lemma_lines_shift(s: Seq<char>, k: int, from: int)
    requires
        0 <= k <= s.len(),
        0 <= from,
    ensures
        lines_from(s, from + k) == lines_from(s.skip(k), from),
    decreases s.len() - from - k,
{
    let t = s.skip(k);
    if from + k < s.len() {
        let cls = CharClass::Except('\n');
        lemma_run_end_shift(s, cls, k, from);
        lemma_run_end_props(s, cls, from + k);
        let e = run_end(s, cls, from + k);
        if e >= s.len() {
            assert(s.subrange(from + k, s.len() as int) =~= t.subrange(from, t.len() as int));
        } else {
            assert(s.subrange(from + k, e) =~= t.subrange(from, e - k));
            lemma_lines_shift(s, k, e + 1 - k);
        }
    }
}

/// Lines that hold no line feed and do not end in a carriage return are
/// read back from their text as they were written.
pub proof fn lemma_lines_unlines(ls: Seq<Seq<char>>)
    requires
        forall|i: int, j: int| 0 <= i < ls.len() && 0 <= j < ls[i].len() ==> ls[i][j] != '\n',
        forall|i: int| 0 <= i < ls.len() && ls[i].len() > 0 ==> #[trigger] ls[i].last() != '\r',
    ensures
        lines(unlines(ls)) == ls,
    decreases ls.len(),
{
    let s = unlines(ls);
    if ls.len() > 0 {
        let first = ls[0];
        let rest = ls.skip(1);
        lemma_unlines_front(ls);
        let cls = CharClass::Except('\n');
        let e = first.len() as int;
        assert(s =~= first + seq!['\n'] + unlines(rest));
        assert forall|i: int| 0 <= i < e implies cls.has(#[trigger] s[i]) by {
            assert(s[i] == first[i]);
        }
        assert(s[e] == '\n');
        lemma_run_end(s, cls, 0, e);
        assert(s.subrange(0, e) =~= first);
        assert(chomp_cr(first) == first);
        lemma_lines_shift(s, e + 1, 0);
        assert(s.skip(e + 1) =~= unlines(rest));
        assert forall|i: int, j: int| 0 <= i < rest.len() && 0 <= j < rest[i].len() implies rest[i][j]
            != '\n' by {
            assert(rest[i] == ls[i + 1]);
        }
        assert forall|i: int| 0 <= i < rest.len() && rest[i].len() > 0 implies #[trigger] rest[i].last()
            != '\r' by {
            assert(rest[i] == ls[i + 1]);
        }
        lemma_lines_unlines(rest);
        assert(seq![first] + rest =~= ls);
    }
}

/// Lines that were written with a last line that has no line feed behind
/// it are read back as they were written, if the last line is not empty.
pub proof fn lemma_lines_open(ls: Seq<Seq<char>>, last: Seq<char>)
    requires
        forall|i: int, j: int| 0 <= i < ls.len() && 0 <= j < ls[i].len() ==> ls[i][j] != '\n',
        forall|i: int| 0 <= i < ls.len() && ls[i].len() > 0 ==> #[trigger] ls[i].last() != '\r',
        last.len() > 0,
        forall|j: int| 0 <= j < last.len() ==> last[j] != '\n',
    ensures
        lines(unlines(ls) + last) == ls.push(last),
    decreases ls.len(),
{
    let s = unlines(ls) + last;
    let cls = CharClass::Except('\n');
    if ls.len() > 0 {
        let first = ls[0];
        let rest = ls.skip(1);
        lemma_unlines_front(ls);
        let e = first.len() as int;
        assert(s =~= first + seq!['\n'] + (unlines(rest) + last));
        assert forall|i: int| 0 <= i < e implies cls.has(#[trigger] s[i]) by {
            assert(s[i] == first[i]);
        }
        assert(s[e] == '\n');
        lemma_run_end(s, cls, 0, e);
        assert(s.subrange(0, e) =~= first);
        assert(chomp_cr(first) == first);
        lemma_lines_shift(s, e + 1, 0);
        assert(s.skip(e + 1) =~= unlines(rest) + last);
        assert forall|i: int, j: int| 0 <= i < rest.len() && 0 <= j < rest[i].len() implies rest[i][j]
            != '\n' by {
            assert(rest[i] == ls[i + 1]);
        }
        assert forall|i: int| 0 <= i < rest.len() && rest[i].len() > 0 implies #[trigger] rest[i].last()
            != '\r' by {
            assert(rest[i] == ls[i + 1]);
        }
        lemma_lines_open(rest, last);
        assert(seq![first] + rest.push(last) =~= ls.push(last));
    } else {
        assert(s =~= last);
        lemma_run_end(s, cls, 0, s.len() as int);
        assert(s.subrange(0, s.len() as int) =~= s);
        assert(seq![last] =~= ls.push(last));
    }
}

/// Whether a text is one word: it is not empty and holds no white space.
pub open spec fn is_word(w: Seq<char>) -> bool {
    &&& w.len() > 0
    &&& forall|i: int| 0 <= i < w.len() ==> !is_whitespace(#[trigger] w[i])
}

/// The words of a text without its first `k` characters are the words of
/// the whole text from `k` on.
pub proof fn lemma_tokens_shift(s: Seq<char>, k: int, from: int)
    requires
        0 <= k <= s.len(),
        0 <= from,
    ensures
        tokens_from(s, from + k) == tokens_from(s.skip(k), from),
    decreases s.len() - from - k,
{
    let t = s.skip(k);
    let ws = CharClass::Whitespace;
    let nws = CharClass::NonWhitespace;
    lemma_run_end_shift(s, ws, k, from);
    let a = run_end(s, ws, from + k);
    if from + k <= s.len() {
        lemma_run_end_props(s, ws, from + k);
    }
    if from + k <= s.len() && a < s.len() {
        lemma_run_end_shift(s, nws, k, a - k);
        lemma_run_end_props(s, nws, a);
        let b = run_end(s, nws, a);
        assert(b > a);
        assert(s.subrange(a, b) =~= t.subrange(a - k, b - k));
        lemma_tokens_shift(s, k, b - k);
    }
}

/// A run in the first `at` characters of a text is the run in the whole
/// text, stopped at `at`.
pub proof fn lemma_run_end_take(s: Seq<char>, cls: CharClass, from: int, at: int)
    requires
        0 <= from <= at <= s.len(),
    ensures
        run_end(s.take(at), cls, from) == (if run_end(s, cls, from) < at {
            run_end(s, cls, from)
        } else {
            at
        }),
    decreases at - from,
{
    lemma_run_end_props(s, cls, from);
    if from < at {
        assert(s.take(at)[from] == s[from]);
        if cls.has(s[from]) {
            lemma_run_end_take(s, cls, from + 1, at);
        }
    }
}

/// The words of a text are those before a white space in it and then those
/// behind it.
pub proof fn lemma_tokens_cut(s: Seq<char>, at: int, from: int)
    requires
        0 <= from <= at < s.len(),
        is_whitespace(s[at]),
    ensures
        tokens_from(s, from) == tokens_from(s.take(at), from) + tokens_from(s, at),
    decreases at - from,
{
    let ws = CharClass::Whitespace;
    let nws = CharClass::NonWhitespace;
    let head = s.take(at);
    lemma_run_end_take(s, ws, from, at);
    lemma_run_end_props(s, ws, from);
    let a = run_end(s, ws, from);
    if a >= at {
        assert(tokens_from(head, from) =~= Seq::<Seq<char>>::empty());
        lemma_run_end_props(s, ws, at);
        lemma_run_end(s, ws, from, run_end(s, ws, at));
    } else {
        lemma_run_end_take(s, nws, a, at);
        lemma_run_end_props(s, nws, a);
        let b = run_end(s, nws, a);
        assert(b <= at);
        assert(s.subrange(a, b) =~= head.subrange(a, b));
        if b < at {
            lemma_tokens_cut(s, at, b);
        } else {
            lemma_run_end(head, ws, at, at);
            assert(tokens_from(head, at) =~= Seq::<Seq<char>>::empty());
        }
    }
}

/// The words of a word followed by white space and more text are the word
/// and then the words of that text.
pub proof fn lemma_tokens_behind_word(w: Seq<char>, gap: char, rest: Seq<char>)
    requires
        is_word(w),
        is_whitespace(gap),
    ensures
        tokens(w) == seq![w],
        tokens(w + seq![gap] + rest) == seq![w] + tokens(rest),
{
    let ws = CharClass::Whitespace;
    let nws = CharClass::NonWhitespace;
    let n = w.len() as int;
    assert(!is_whitespace(w[0]));
    lemma_run_end(w, ws, 0, 0);
    lemma_run_end(w, nws, 0, n);
    lemma_run_end(w, ws, n, n);
    assert(w.subrange(0, n) =~= w);
    assert(tokens_from(w, n) =~= Seq::<Seq<char>>::empty());
    assert(tokens(w) =~= seq![w]);
    let s = w + seq![gap] + rest;
    assert(s[0] == w[0]);
    assert forall|i: int| 0 <= i < n implies nws.has(#[trigger] s[i]) by {
        assert(s[i] == w[i]);
    }
    assert(s[n] == gap);
    lemma_run_end(s, ws, 0, 0);
    lemma_run_end(s, nws, 0, n);
    assert(s.subrange(0, n) =~= w);
    assert(tokens(s) == seq![w] + tokens_from(s, n));
    assert(run_end(s, ws, n) == run_end(s, ws, n + 1));
    assert(tokens_from(s, n) == tokens_from(s, n + 1)) by {
        lemma_run_end_props(s, ws, n + 1);
    }
    lemma_tokens_shift(s, n + 1, 0);
    assert(s.skip(n + 1) =~= rest);
}

/// The texts of `parts` in order, with `sep` between neighbours.
pub open spec fn join(parts: Seq<Seq<char>>, sep: Seq<char>) -> Seq<char>
    decreases parts.len(),
{
    if parts.len() == 0 {
        Seq::empty()
    } else if parts.len() == 1 {
        parts[0]
    } else {
        join(parts.drop_last(), sep) + sep + parts.last()
    }
}

/// Joins texts with a separator between neighbours.
pub fn join_texts(parts: &[Vec<char>], sep: &[char]) -> (r: Vec<char>)
    ensures
        r@ == join(views(parts@), sep@),
{
    let mut r: Vec<char> = Vec::new();
    let mut i: usize = 0;
    while i < parts.len()
        invariant
            i <= parts.len(),
            r@ == join(views(parts@).take(i as int), sep@),
        decreases parts.len() - i,
    {
        let ghost done = views(parts@).take(i as int);
        let ghost next = views(parts@).take(i + 1);
        assert(next.drop_last() =~= done);
        assert(next.last() == parts@[i as int]@);
        if i > 0 {
            push_chars(&mut r, sep);
        }
        push_chars(&mut r, parts[i].as_slice());
        assert(r@ =~= join(next, sep@));
        i += 1;
    }
    assert(views(parts@).take(parts.len() as int) =~= views(parts@));
    r
}

/// Joins strings with a separator between neighbours.
pub fn join_strings(parts: &Vec<String>, sep: &str) -> (r: String)
    ensures
        r@ == join(string_views(parts@), sep@),
{
    let mut r: Vec<char> = Vec::new();
    let mut i: usize = 0;
    while i < parts.len()
        invariant
            i <= parts.len(),
            r@ == join(string_views(parts@).take(i as int), sep@),
        decreases parts.len() - i,
    {
        let ghost done = string_views(parts@).take(i as int);
        let ghost next = string_views(parts@).take(i + 1);
        assert(next.drop_last() =~= done);
        assert(next.last() == parts@[i as int]@);
        if i > 0 {
            push_str(&mut r, sep);
        }
        push_str(&mut r, parts[i].as_str());
        assert(r@ =~= join(next, sep@));
        i += 1;
    }
    assert(string_views(parts@).take(parts.len() as int) =~= string_views(parts@));
    string_of(r.as_slice())
}

/// What `str::to_lowercase` makes of a text.
pub uninterp spec fn lowercase_of(s: Seq<char>) -> Seq<char>;

/// What `str::to_uppercase` makes of a text.
pub uninterp spec fn uppercase_of(s: Seq<char>) -> Seq<char>;

/// `str::to_lowercase`: the lowercase equivalent of the text under
/// Unicode's case mapping, which depends on nothing but the text.
#[verifier::external_body]
pub(crate) fn lowercase(s: &str) -> (r: String)
    ensures
        r@ == lowercase_of(s@),
{
    s.to_lowercase()
}

/// `str::to_uppercase`: the uppercase equivalent of the text under
/// Unicode's case mapping, which depends on nothing but the text.
#[verifier::external_body]
pub(crate) fn uppercase(s: &str) -> (r: String)
    ensures
        r@ == uppercase_of(s@),
{
    s.to_uppercase()
}

} // verus!
