//! Decimal digits: writing unsigned integers and reading them back.

use vstd::prelude::*;

verus! {

/// Why a text could not be read as an integer.
#[derive(Clone, Copy, Debug, PartialEq, Eq, Structural)]
pub enum IntErrorKind {
    /// The text was empty.
    Empty,
    /// A character was not a decimal digit, or a sign stood alone.
    InvalidDigit,
    /// The value is too large for the integer type.
    PosOverflow,
    /// The value is too small for the integer type.
    NegOverflow,
}

/// The character that writes the digit `d`.
pub open spec fn digit_char(d: int) -> char {
    ((48 + d) as u8) as char
}

/// The digit that the character `c` writes.
pub open spec fn digit_value(c: char) -> int {
    (c as u32) as int - 48
}

/// Whether a character is one of the ten decimal digits.
pub open spec fn is_digit(c: char) -> bool {
    '0' <= c <= '9'
}

/// The shortest decimal writing of `n`.
pub open spec fn decimal(n: nat) -> Seq<char>
    decreases n,
{
    if n < 10 {
        seq![digit_char(n as int)]
    } else {
        decimal(n / 10).push(digit_char((n % 10) as int))
    }
}

/// The decimal writing of `n`, with a leading zero if it has one digit.
pub open spec fn pad2(n: nat) -> Seq<char> {
    if n < 10 {
        seq!['0', digit_char(n as int)]
    } else {
        decimal(n)
    }
}

/// The decimal writing of `n`, with a minus sign before it if it is negative.
pub open spec fn signed_decimal(n: int) -> Seq<char> {
    if n < 0 {
        seq!['-'] + decimal((-n) as nat)
    } else {
        decimal(n as nat)
    }
}

/// The number that the digits of `s` write; leading zeros count for nothing.
pub open spec fn digits_value(s: Seq<char>) -> nat
    decreases s.len(),
{
    if s.len() == 0 {
        0
    } else {
        (digits_value(s.drop_last()) * 10 + digit_value(s.last())) as nat
    }
}

/// Whether a text is made of decimal digits only.
pub open spec fn all_digits(s: Seq<char>) -> bool {
    forall|i: int| 0 <= i < s.len() ==> is_digit(#[trigger] s[i])
}

/// Reads digits from left to right, starting at `from` with `acc` read so
/// far. The first character that is no digit, or that takes the value past
/// `max`, ends the reading with an error.
pub open spec fn read_digits(s: Seq<char>, from: int, acc: int, max: int) -> Result<
    int,
    IntErrorKind,
>
    decreases s.len() - from,
{
    if from < 0 || from >= s.len() {
        Ok(acc)
    } else if !is_digit(s[from]) {
        Err(IntErrorKind::InvalidDigit)
    } else if acc * 10 + digit_value(s[from]) > max {
        Err(IntErrorKind::PosOverflow)
    } else {
        read_digits(s, from + 1, acc * 10 + digit_value(s[from]), max)
    }
}

/// Whether a text holds a digit.
pub open spec fn holds_digit(s: Seq<char>) -> bool {
    exists|i: int| 0 <= i < s.len() && is_digit(#[trigger] s[i])
}

/// The value of a run of digits that is at most `max`: at least one digit
/// and nothing else, so no sign either.
pub open spec fn parse_digits(s: Seq<char>, max: int) -> Result<int, IntErrorKind> {
    if s.len() == 0 {
        Err(IntErrorKind::Empty)
    } else {
        read_digits(s, 0, 0, max)
    }
}

/// The value of an unsigned decimal number that is at most `max`: an
/// optional `+` and then at least one digit.
pub open spec fn parse_unsigned(s: Seq<char>, max: int) -> Result<int, IntErrorKind> {
    if s.len() == 0 {
        Err(IntErrorKind::Empty)
    } else if s[0] == '+' {
        if s.len() == 1 {
            Err(IntErrorKind::InvalidDigit)
        } else {
            read_digits(s, 1, 0, max)
        }
    } else {
        read_digits(s, 0, 0, max)
    }
}

/// The value of a signed decimal number between `-limit - 1` and `limit`: an
/// optional `+` or `-` and then at least one digit.
pub open spec fn parse_signed(s: Seq<char>, limit: int) -> Result<int, IntErrorKind> {
    if s.len() == 0 {
        Err(IntErrorKind::Empty)
    } else if s[0] == '-' {
        if s.len() == 1 {
            Err(IntErrorKind::InvalidDigit)
        } else {
            match read_digits(s, 1, 0, limit + 1) {
                Ok(v) => Ok(-v),
                Err(IntErrorKind::PosOverflow) => Err(IntErrorKind::NegOverflow),
                Err(e) => Err(e),
            }
        }
    } else {
        parse_unsigned(s, limit)
    }
}

/// The character that writes a digit.
pub fn digit_to_char(d: u8) -> (c: char)
    requires
        d < 10,
    ensures
        c == digit_char(d as int),
        is_digit(c),
        digit_value(c) == d,
{
    (48u8 + d) as char
}

/// The digit that a character writes.
pub fn char_to_digit(c: char) -> (d: u8)
    requires
        is_digit(c),
    ensures
        d == digit_value(c),
        d < 10,
{
    ((c as u32) - 48) as u8
}

/// Appends the decimal writing of `n` to a buffer.
pub fn push_decimal(out: &mut Vec<char>, n: u128)
    ensures
        final(out)@ == old(out)@ + decimal(n as nat),
    decreases n,
{
    if n >= 10 {
        push_decimal(out, n / 10);
    }
    out.push(digit_to_char((n % 10) as u8));
    assert(out@ =~= old(out)@ + decimal(n as nat));
}

/// Appends `n` in decimal writing, at least two digits wide.
pub fn push_pad2(out: &mut Vec<char>, n: u128)
    ensures
        final(out)@ == old(out)@ + pad2(n as nat),
{
    if n < 10 {
        out.push('0');
        out.push(digit_to_char(n as u8));
        assert(out@ =~= old(out)@ + pad2(n as nat));
    } else {
        push_decimal(out, n);
    }
}

/// Appends `n` in decimal writing, with its sign if it is negative.
pub fn push_signed_decimal(out: &mut Vec<char>, n: i64)
    ensures
        final(out)@ == old(out)@ + signed_decimal(n as int),
{
    if n < 0 {
        out.push('-');
        let m: u128 = (-(n as i128)) as u128;
        push_decimal(out, m);
        assert(out@ =~= old(out)@ + signed_decimal(n as int));
    } else {
        push_decimal(out, n as u128);
    }
}

fn read_digits_from(s: &[char], from: usize, max: u64) -> (r: Result<u64, IntErrorKind>)
    requires
        from <= s.len(),
    ensures
        match r {
            Ok(v) => v <= max && read_digits(s@, from as int, 0, max as int) == Ok::<
                int,
                IntErrorKind,
            >(v as int),
            Err(e) => read_digits(s@, from as int, 0, max as int) == Err::<int, IntErrorKind>(e),
        },
{
    let mut acc: u64 = 0;
    let mut i: usize = from;
    while i < s.len()
        invariant
            from <= i <= s.len(),
            acc <= max,
            read_digits(s@, from as int, 0, max as int) == read_digits(
                s@,
                i as int,
                acc as int,
                max as int,
            ),
        decreases s.len() - i,
    {
        let c = s[i];
        if !(('0' <= c) && (c <= '9')) {
            return Err(IntErrorKind::InvalidDigit);
        }
        let d = char_to_digit(c) as u64;
        if d > max {
            return Err(IntErrorKind::PosOverflow);
        }
        if acc > (max - d) / 10 {
            assert(acc * 10 + d > max) by (nonlinear_arith)
                requires
                    acc > (max - d) / 10,
                    d <= max,
                    d < 10,
                    acc <= max,
            {
            }
            return Err(IntErrorKind::PosOverflow);
        }
        assert(acc * 10 + d <= max) by (nonlinear_arith)
            requires
                acc <= (max - d) / 10,
                d <= max,
        {
        }
        acc = acc * 10 + d;
        i += 1;
    }
    Ok(acc)
}

/// Reads an unsigned decimal number that is at most `max`.
pub fn parse_unsigned_chars(s: &[char], max: u64) -> (r: Result<u64, IntErrorKind>)
    ensures
        match r {
            Ok(v) => v <= max && parse_unsigned(s@, max as int) == Ok::<int, IntErrorKind>(
                v as int,
            ),
            Err(e) => parse_unsigned(s@, max as int) == Err::<int, IntErrorKind>(e),
        },
{
    if s.len() == 0 {
        Err(IntErrorKind::Empty)
    } else if s[0] == '+' {
        if s.len() == 1 {
            Err(IntErrorKind::InvalidDigit)
        } else {
            read_digits_from(s, 1, max)
        }
    } else {
        read_digits_from(s, 0, max)
    }
}

/// Tells whether a text holds a digit.
pub fn has_digit(s: &[char]) -> (b: bool)
    ensures
        b == holds_digit(s@),
{
    let mut i: usize = 0;
    while i < s.len()
        invariant
            i <= s.len(),
            forall|j: int| 0 <= j < i ==> !is_digit(#[trigger] s@[j]),
        decreases s.len() - i,
    {
        if '0' <= s[i] && s[i] <= '9' {
            return true;
        }
        i += 1;
    }
    false
}

/// Reads a run of digits whose value is at most `max`.
pub fn parse_digits_chars(s: &[char], max: u64) -> (r: Result<u64, IntErrorKind>)
    ensures
        match r {
            Ok(v) => v <= max && parse_digits(s@, max as int) == Ok::<int, IntErrorKind>(v as int),
            Err(e) => parse_digits(s@, max as int) == Err::<int, IntErrorKind>(e),
        },
{
    if s.len() == 0 {
        Err(IntErrorKind::Empty)
    } else {
        read_digits_from(s, 0, max)
    }
}

/// Reads a run of digits whose value fits 64 bits.
pub fn parse_u64_digits(s: &[char]) -> (r: Result<u64, IntErrorKind>)
    ensures
        match r {
            Ok(v) => parse_digits(s@, u64::MAX as int) == Ok::<int, IntErrorKind>(v as int),
            Err(e) => parse_digits(s@, u64::MAX as int) == Err::<int, IntErrorKind>(e),
        },
{
    parse_digits_chars(s, u64::MAX)
}

/// Reads a run of digits whose value fits 32 bits.
pub fn parse_u32_digits(s: &[char]) -> (r: Result<u32, IntErrorKind>)
    ensures
        match r {
            Ok(v) => parse_digits(s@, u32::MAX as int) == Ok::<int, IntErrorKind>(v as int),
            Err(e) => parse_digits(s@, u32::MAX as int) == Err::<int, IntErrorKind>(e),
        },
{
    match parse_digits_chars(s, 0xffff_ffff) {
        Ok(v) => Ok(v as u32),
        Err(e) => Err(e),
    }
}

/// Reads a decimal number that fits 32 bits without a sign.
pub fn parse_u32_chars(s: &[char]) -> (r: Result<u32, IntErrorKind>)
    ensures
        match r {
            Ok(v) => parse_unsigned(s@, u32::MAX as int) == Ok::<int, IntErrorKind>(v as int),
            Err(e) => parse_unsigned(s@, u32::MAX as int) == Err::<int, IntErrorKind>(e),
        },
{
    match parse_unsigned_chars(s, 0xffff_ffff) {
        Ok(v) => Ok(v as u32),
        Err(e) => Err(e),
    }
}

/// Reads a decimal number that fits 32 bits with a sign.
pub fn parse_i32_chars(s: &[char]) -> (r: Result<i32, IntErrorKind>)
    ensures
        match r {
            Ok(v) => parse_signed(s@, i32::MAX as int) == Ok::<int, IntErrorKind>(v as int),
            Err(e) => parse_signed(s@, i32::MAX as int) == Err::<int, IntErrorKind>(e),
        },
{
    if s.len() > 0 && s[0] == '-' {
        if s.len() == 1 {
            Err(IntErrorKind::InvalidDigit)
        } else {
            match read_digits_from(s, 1, 0x8000_0000) {
                Ok(v) => Ok((-(v as i64)) as i32),
                Err(IntErrorKind::PosOverflow) => Err(IntErrorKind::NegOverflow),
                Err(e) => Err(e),
            }
        }
    } else {
        match parse_unsigned_chars(s, 0x7fff_ffff) {
            Ok(v) => Ok(v as i32),
            Err(e) => Err(e),
        }
    }
}

/// A digit's character is a digit, and writes that digit.
pub proof fn lemma_digit_char(d: int)
    requires
        0 <= d < 10,
    ensures
        is_digit(digit_char(d)),
        digit_value(digit_char(d)) == d,
        digit_char(d) != '+',
        digit_char(d) != '-',
        digit_char(d) != ',',
        digit_char(d) != '.',
        digit_char(d) != ' ',
{
}

/// A decimal writing is made of digits and is not empty.
pub proof fn lemma_decimal_digits(n: nat)
    ensures
        decimal(n).len() >= 1,
        all_digits(decimal(n)),
        n < 10 ==> decimal(n).len() == 1,
        10 <= n < 100 ==> decimal(n).len() == 2,
    decreases n,
{
    if n < 10 {
        lemma_digit_char(n as int);
    } else {
        lemma_decimal_digits(n / 10);
        lemma_digit_char((n % 10) as int);
        let head = decimal(n / 10);
        assert forall|i: int| 0 <= i < decimal(n).len() implies is_digit(
            #[trigger] decimal(n)[i],
        ) by {
            if i < head.len() {
                assert(decimal(n)[i] == head[i]);
            }
        }
    }
}

/// The digits of a decimal writing write the number back.
pub proof fn lemma_decimal_value(n: nat)
    ensures
        digits_value(decimal(n)) == n,
    decreases n,
{
    if n < 10 {
        lemma_digit_char(n as int);
        assert(decimal(n).drop_last() =~= Seq::<char>::empty());
        assert(digits_value(decimal(n).drop_last()) == 0);
    } else {
        lemma_decimal_value(n / 10);
        lemma_digit_char((n % 10) as int);
        assert(decimal(n).drop_last() =~= decimal(n / 10));
    }
}

/// The value of a prefix of digits is at most the value of the whole.
pub proof fn lemma_prefix_value(s: Seq<char>, i: int)
    requires
        all_digits(s),
        0 <= i <= s.len(),
    ensures
        digits_value(s.take(i)) <= digits_value(s),
    decreases s.len() - i,
{
    if i < s.len() {
        lemma_prefix_value(s, i + 1);
        let longer = s.take(i + 1);
        assert(longer.drop_last() =~= s.take(i));
        assert(longer.last() == s[i]);
        assert(is_digit(s[i]));
    } else {
        assert(s.take(i) =~= s);
    }
}

/// Reading digits from left to right arrives at their value.
pub proof fn lemma_read_digits(s: Seq<char>, i: int, max: int)
    requires
        all_digits(s),
        0 <= i <= s.len(),
        digits_value(s) <= max,
    ensures
        read_digits(s, i, digits_value(s.take(i)) as int, max) == Ok::<int, IntErrorKind>(
            digits_value(s) as int,
        ),
    decreases s.len() - i,
{
    if i < s.len() {
        let longer = s.take(i + 1);
        assert(longer.drop_last() =~= s.take(i));
        assert(longer.last() == s[i]);
        assert(is_digit(s[i]));
        lemma_prefix_value(s, i + 1);
        lemma_read_digits(s, i + 1, max);
    } else {
        assert(s.take(i) =~= s);
    }
}

/// A decimal writing is read back as the number that it writes.
pub proof fn lemma_parse_decimal(n: nat, max: int)
    requires
        n <= max,
    ensures
        parse_digits(decimal(n), max) == Ok::<int, IntErrorKind>(n as int),
        parse_unsigned(decimal(n), max) == Ok::<int, IntErrorKind>(n as int),
        parse_signed(decimal(n), max) == Ok::<int, IntErrorKind>(n as int),
{
    let s = decimal(n);
    lemma_decimal_digits(n);
    lemma_decimal_value(n);
    assert(is_digit(s[0]));
    assert(s.take(0) =~= Seq::<char>::empty());
    lemma_read_digits(s, 0, max);
}

/// Two digits are read back as the number below 100 that they write.
pub proof fn lemma_parse_pad2(n: nat, max: int)
    requires
        n < 100,
        99 <= max,
    ensures
        pad2(n).len() == 2,
        all_digits(pad2(n)),
        parse_digits(pad2(n), max) == Ok::<int, IntErrorKind>(n as int),
        parse_unsigned(pad2(n), max) == Ok::<int, IntErrorKind>(n as int),
        parse_signed(pad2(n), max) == Ok::<int, IntErrorKind>(n as int),
{
    if n < 10 {
        let s = pad2(n);
        lemma_digit_char(n as int);
        assert(is_digit(s[0]) && is_digit(s[1]));
        assert(digit_value(s[0]) == 0);
        reveal_with_fuel(read_digits, 3);
        assert(read_digits(s, 0, 0, max) == Ok::<int, IntErrorKind>(n as int));
    } else {
        lemma_decimal_digits(n);
        lemma_parse_decimal(n, max);
    }
}

/// Reading digits behind the first `k` characters of a text is reading
/// the text without them.
pub proof fn lemma_read_digits_shift(s: Seq<char>, k: int, from: int, acc: int, max: int)
    requires
        0 <= k <= s.len(),
        0 <= from,
    ensures
        read_digits(s, from + k, acc, max) == read_digits(s.skip(k), from, acc, max),
    decreases s.len() - from - k,
{
    if from + k < s.len() {
        assert(s.skip(k)[from] == s[from + k]);
        let next = acc * 10 + digit_value(s[from + k]);
        if is_digit(s[from + k]) && next <= max {
            lemma_read_digits_shift(s, k, from + 1, next, max);
        }
    }
}

/// A decimal writing with its sign is read back as the number that it
/// writes.
pub proof fn lemma_parse_signed_decimal(n: int, limit: int)
    requires
        -limit - 1 <= n <= limit,
    ensures
        parse_signed(signed_decimal(n), limit) == Ok::<int, IntErrorKind>(n),
{
    if n < 0 {
        let digits = decimal((-n) as nat);
        let s = seq!['-'] + digits;
        lemma_decimal_digits((-n) as nat);
        lemma_parse_decimal((-n) as nat, limit + 1);
        lemma_read_digits_shift(s, 1, 0, 0, limit + 1);
        assert(s.skip(1) =~= digits);
    } else {
        lemma_parse_decimal(n as nat, limit);
    }
}

} // verus!
