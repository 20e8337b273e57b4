use mini_cassandra_loadgen::text::{
    chars_of, joined, parse_unsigned, push_decimal, same_text, split_at_char, string_of, trimmed,
};

fn decimal(n: u64) -> String {
    let mut text = String::new();
    push_decimal(&mut text, n);
    text
}

#[test]
fn trims_white_space_of_all_kinds() {
    assert_eq!(trimmed(" \t\n a b \r\u{3000}\u{a0}"), "a b");
    assert_eq!(trimmed(""), "");
    assert_eq!(trimmed(" \u{2003} "), "");
    assert_eq!(trimmed("\u{200b}x"), "\u{200b}x");
    for c in '\u{0}'..='\u{ffff}' {
        let text = format!("{c}x{c}");
        assert_eq!(trimmed(&text), text.trim());
    }
}

#[test]
fn trimming_twice_changes_nothing() {
    let once = trimmed("  10.0.0.1:9042\t");
    assert_eq!(once, "10.0.0.1:9042");
    assert_eq!(trimmed(&once), once);
}

#[test]
fn splits_as_std_does() {
    for text in ["", ",", "a", "a,b", ",a,,b,", "ä,ö"] {
        let expected: Vec<String> = text.split(',').map(str::to_string).collect();
        assert_eq!(split_at_char(text, ','), expected);
    }
}

#[test]
fn splitting_undoes_joining() {
    let parts = vec!["a:1".to_string(), "".to_string(), "c:3".to_string()];
    let text = joined(&parts, ",");
    assert_eq!(text, "a:1,,c:3");
    assert_eq!(split_at_char(&text, ','), parts);
    assert_eq!(joined(&Vec::new(), ","), "");
    assert_eq!(joined(&vec!["x".to_string()], ","), "x");
}

#[test]
fn parses_unsigned_numbers() {
    assert_eq!(parse_unsigned("0", u64::MAX), Some(0));
    assert_eq!(parse_unsigned("007", u64::MAX), Some(7));
    assert_eq!(parse_unsigned("+42", u64::MAX), Some(42));
    assert_eq!(parse_unsigned("18446744073709551615", u64::MAX), Some(u64::MAX));
    assert_eq!(parse_unsigned("18446744073709551616", u64::MAX), None);
    assert_eq!(parse_unsigned("99999999999999999999999", u64::MAX), None);
    assert_eq!(parse_unsigned("4294967295", u32::MAX as u64), Some(4294967295));
    assert_eq!(parse_unsigned("4294967296", u32::MAX as u64), None);
    assert_eq!(parse_unsigned("5", 4), None);
    assert_eq!(parse_unsigned("4", 4), Some(4));
    for text in ["", "+", "-1", "-0", "++1", " 1", "1 ", "1_000", "0x10", "١", "1.5"] {
        assert_eq!(parse_unsigned(text, u64::MAX), None);
        assert!(text.parse::<u64>().is_err());
    }
}

#[test]
fn decimal_reads_back() {
    for n in [0, 9, 10, 99, 100, 1000, 1_000_000, u32::MAX as u64, u64::MAX] {
        assert_eq!(decimal(n), n.to_string());
        assert_eq!(parse_unsigned(&decimal(n), u64::MAX), Some(n));
    }
}

#[test]
fn takes_strings_apart_and_together() {
    let chars = chars_of("aß€");
    assert_eq!(chars, vec!['a', 'ß', '€']);
    assert_eq!(string_of(&chars, 1, 3), "ß€");
    assert_eq!(string_of(&chars, 1, 1), "");
    assert!(same_text("ab", "ab"));
    assert!(!same_text("ab", "aB"));
}
