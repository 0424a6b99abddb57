use dmaster_core::text::{
    chars_of, contains_exec, i64_to_string, parse_i32_exec, parse_u32_exec, parse_u64_exec,
    parse_usize_exec, split_lines, split_words, string_of, trimmed_chars, u64_to_string,
    IntErrorKind,
};

fn v(s: &str) -> Vec<char> {
    chars_of(s)
}

fn kind(e: &std::num::ParseIntError) -> IntErrorKind {
    match e.kind() {
        std::num::IntErrorKind::Empty => IntErrorKind::Empty,
        std::num::IntErrorKind::InvalidDigit => IntErrorKind::InvalidDigit,
        std::num::IntErrorKind::PosOverflow => IntErrorKind::PosOverflow,
        std::num::IntErrorKind::NegOverflow => IntErrorKind::NegOverflow,
        _ => panic!("unexpected kind"),
    }
}

#[test]
fn integer_parsing_matches_std() {
    let samples = [
        "", "+", "-", "0", "-0", "+0", "42", "-42", "+42", "007", "4294967295", "4294967296",
        "2147483647", "2147483648", "-2147483648", "-2147483649", "1 ", " 1", "1x", "--1", "+-1",
        "18446744073709551615", "18446744073709551616", "99999999999999999999x", "x99999999999999999999",
        "\u{0661}",
    ];
    for s in samples {
        assert_eq!(parse_u32_exec(&v(s)), s.parse::<u32>().map_err(|e| kind(&e)), "u32 {s:?}");
        assert_eq!(parse_i32_exec(&v(s)), s.parse::<i32>().map_err(|e| kind(&e)), "i32 {s:?}");
        assert_eq!(parse_u64_exec(&v(s)), s.parse::<u64>().map_err(|e| kind(&e)), "u64 {s:?}");
        assert_eq!(parse_usize_exec(&v(s)), s.parse::<usize>().map_err(|e| kind(&e)), "usize {s:?}");
    }
}

#[test]
fn decimal_formatting_matches_std() {
    for n in [0u64, 7, 10, 99, 100, 12345, u64::MAX] {
        assert_eq!(u64_to_string(n), n.to_string());
    }
    for n in [0i64, -1, -10, 255, i64::MAX, i64::MIN + 1, i32::MIN as i64] {
        assert_eq!(i64_to_string(n), n.to_string());
    }
}

#[test]
fn lines_match_std() {
    for s in ["", "a", "a\n", "a\n\nb", "a\r\nb\r\n", "a\r", "\n", "\r\n", "x\ny\rz\n\n"] {
        let got: Vec<String> = split_lines(&v(s)).iter().map(|l| string_of(l)).collect();
        let expected: Vec<String> = s.lines().map(|l| l.to_string()).collect();
        assert_eq!(got, expected, "{s:?}");
    }
}

#[test]
fn words_match_std() {
    for s in ["", "  ", "a b", " a\tb\n c ", "x\u{3000}y\u{a0}z", "one"] {
        let got: Vec<String> = split_words(&v(s)).iter().map(|l| string_of(l)).collect();
        let expected: Vec<String> = s.split_whitespace().map(|l| l.to_string()).collect();
        assert_eq!(got, expected, "{s:?}");
    }
}

#[test]
fn trim_and_contains_match_std() {
    for s in ["", " ", " a ", "\u{2028}b\u{85}", "c\u{200b}"] {
        assert_eq!(string_of(&trimmed_chars(&v(s))), s.trim(), "{s:?}");
    }
    assert!(contains_exec(&v("HDMI-1 connected primary"), &v(" connected")));
    assert!(!contains_exec(&v("HDMI-1 disconnected"), &v(" connected")));
    assert!(contains_exec(&v("abc"), &v("")));
}

#[test]
fn whitespace_class_matches_std() {
    for u in 0u32..=0x10FFFF {
        if let Some(c) = char::from_u32(u) {
            assert_eq!(dmaster_core::text::char_is_ws(c), c.is_whitespace(), "U+{u:04X}");
        }
    }
}
