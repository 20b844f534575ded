use parser::number::{
    has_digit, parse_i32_chars, parse_u32_chars, parse_u32_digits, parse_u64_digits, IntErrorKind,
};
use parser::text::{
    blank, char_is_ascii_alphabetic, char_is_ascii_digit, char_is_whitespace, chars_of, find_in,
    has_char, has_prefix, join_strings, remove_char, replace_char, split_lines, split_tokens,
    string_of, strip_of, trim_of, CharClass,
};

fn text(s: &[char]) -> String {
    s.iter().collect()
}

fn texts(v: Vec<Vec<char>>) -> Vec<String> {
    v.iter().map(|l| text(l)).collect()
}

const SAMPLES: [&str; 16] = [
    "",
    " ",
    "a",
    "  a b  ",
    "\t\u{a0}x\u{3000}y \u{2009}",
    "one\ntwo",
    "one\r\ntwo\r\n",
    "one\rtwo\r",
    "\n",
    "\n\n",
    "\r\n\r\n",
    "a\n\nb\n",
    " \u{85}line \u{2028}sep ",
    "Дата проводки\n  б/с  ",
    "tail\r",
    "x\n\r",
];

#[test]
fn white_space_is_what_the_standard_library_says() {
    for c in '\0'..=char::MAX {
        assert_eq!(char_is_whitespace(c), c.is_whitespace(), "{:?}", c);
        assert_eq!(char_is_ascii_digit(c), c.is_ascii_digit(), "{:?}", c);
        assert_eq!(char_is_ascii_alphabetic(c), c.is_ascii_alphabetic(), "{:?}", c);
        assert_eq!(
            CharClass::NonAsciiAlphanumeric.contains(c),
            !c.is_ascii_alphanumeric()
        );
        assert_eq!(CharClass::NonWhitespace.contains(c), !c.is_whitespace());
    }
    assert!(CharClass::Amount.contains(',') && CharClass::Amount.contains('7'));
    assert!(!CharClass::Amount.contains('-'));
    assert!(CharClass::DateTail.contains('г') && CharClass::DateTail.contains('.'));
    assert!(CharClass::Only('x').contains('x') && !CharClass::Only('x').contains('y'));
    assert!(CharClass::Except('x').contains('y') && !CharClass::Except('x').contains('x'));
}

#[test]
fn trimming_and_splitting_agree_with_the_standard_library() {
    for s in SAMPLES {
        let chars = chars_of(s);
        assert_eq!(string_of(&chars), s);
        assert_eq!(text(trim_of(&chars)), s.trim());
        assert_eq!(blank(&chars), s.trim().is_empty());
        assert_eq!(
            text(strip_of(&chars, CharClass::NonAsciiAlphanumeric)),
            s.trim_matches(|c: char| !c.is_ascii_alphanumeric())
        );
        let words: Vec<String> = s.split_whitespace().map(String::from).collect();
        assert_eq!(texts(split_tokens(&chars)), words);
        let lines: Vec<String> = s.lines().map(String::from).collect();
        assert_eq!(texts(split_lines(&chars)), lines, "{:?}", s);
        assert_eq!(text(&remove_char(&chars, ' ')), s.replace(' ', ""));
        assert_eq!(text(&replace_char(&chars, '\n', '.')), s.replace('\n', "."));
        assert_eq!(has_char(&chars, '\n'), s.contains('\n'));
        for needle in ["", "\n", "one", "two", "б/с", "a b", "Дата"] {
            let n = chars_of(needle);
            let found = find_in(&chars, &n).map(|i| s.chars().take(i).collect::<String>().len());
            assert_eq!(found, s.find(needle));
            assert_eq!(has_prefix(&chars, &n), s.starts_with(needle));
        }
    }
    let parts: Vec<String> = vec!["a".to_string(), String::new(), "b".to_string()];
    assert_eq!(join_strings(&parts, " | "), parts.join(" | "));
    assert_eq!(join_strings(&Vec::new(), ","), "");
}

fn kind(e: &std::num::ParseIntError) -> IntErrorKind {
    match e.kind() {
        std::num::IntErrorKind::Empty => IntErrorKind::Empty,
        std::num::IntErrorKind::InvalidDigit => IntErrorKind::InvalidDigit,
        std::num::IntErrorKind::PosOverflow => IntErrorKind::PosOverflow,
        _ => IntErrorKind::NegOverflow,
    }
}

#[test]
fn numbers_are_read_as_the_standard_library_reads_them() {
    let samples = [
        "",
        "+",
        "-",
        "0",
        "+0",
        "-0",
        "007",
        "+5",
        "-5",
        "++5",
        "5+",
        " 5",
        "5 ",
        "1_000",
        "x",
        "12x",
        "٣",
        "2147483647",
        "2147483648",
        "-2147483648",
        "-2147483649",
        "4294967295",
        "4294967296",
        "18446744073709551615",
        "18446744073709551616",
        "99999999999999999999999999x",
        "x99999999999999999999999999",
        "-99999999999999999999999999x",
        "000000000000000000000000000001",
    ];
    for s in samples {
        let chars = chars_of(s);
        let signed = s.starts_with('+');
        assert_eq!(
            parse_u64_digits(&chars),
            if signed { Err(IntErrorKind::InvalidDigit) } else { s.parse::<u64>().map_err(|e| kind(&e)) },
            "{:?}",
            s
        );
        assert_eq!(
            parse_u32_digits(&chars),
            if signed { Err(IntErrorKind::InvalidDigit) } else { s.parse::<u32>().map_err(|e| kind(&e)) },
            "{:?}",
            s
        );
        assert_eq!(
            parse_u32_chars(&chars),
            s.parse::<u32>().map_err(|e| kind(&e)),
            "{:?}",
            s
        );
        assert_eq!(
            parse_i32_chars(&chars),
            s.parse::<i32>().map_err(|e| kind(&e)),
            "{:?}",
            s
        );
    }
}

#[test]
fn digits_alone_take_no_sign() {
    assert_eq!(parse_u64_digits(&chars_of("15")), Ok(15));
    assert_eq!(parse_u64_digits(&chars_of("+15")), Err(IntErrorKind::InvalidDigit));
    assert_eq!(parse_u64_digits(&chars_of("-15")), Err(IntErrorKind::InvalidDigit));
    assert_eq!(parse_u64_digits(&chars_of("")), Err(IntErrorKind::Empty));
    assert_eq!(parse_u32_digits(&chars_of("4294967295")), Ok(u32::MAX));
    assert_eq!(parse_u32_digits(&chars_of("4294967296")), Err(IntErrorKind::PosOverflow));
    assert_eq!(parse_u32_chars(&chars_of("+15")), Ok(15));
}

#[test]
fn a_digit_is_found_among_other_characters() {
    assert!(has_digit(&chars_of(",.7")));
    assert!(has_digit(&chars_of("0")));
    assert!(!has_digit(&chars_of(",.")));
    assert!(!has_digit(&chars_of("")));
    assert!(!has_digit(&chars_of("٣")));
}
