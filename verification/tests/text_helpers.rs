use forum::text::{
    chars_of, decimal_string, find_char_in, parse_i64, parse_u64, str_equal, trim_str,
    utf8_len_exceeds,
};

#[test]
fn parse_i64_accepts_signed_decimals() {
    assert_eq!(parse_i64("42"), Some(42));
    assert_eq!(parse_i64("-7"), Some(-7));
    assert_eq!(parse_i64("+3"), Some(3));
    assert_eq!(parse_i64("007"), Some(7));
    assert_eq!(parse_i64("9223372036854775807"), Some(i64::MAX));
    assert_eq!(parse_i64("-9223372036854775808"), Some(i64::MIN));
}

#[test]
fn parse_i64_rejects_other_text() {
    assert_eq!(parse_i64(""), None);
    assert_eq!(parse_i64("-"), None);
    assert_eq!(parse_i64("+"), None);
    assert_eq!(parse_i64("1a"), None);
    assert_eq!(parse_i64(" 1"), None);
    assert_eq!(parse_i64("9223372036854775808"), None);
    assert_eq!(parse_i64("-9223372036854775809"), None);
    assert_eq!(parse_i64("99999999999999999999999"), None);
}

#[test]
fn parse_i64_agrees_with_std() {
    for s in ["0", "-0", "+0", "12", "-12", "abc", "1-2", "--1", "+-1", "18446744073709551616"] {
        assert_eq!(parse_i64(s), s.parse::<i64>().ok(), "{s}");
    }
}

#[test]
fn decimal_string_writes_like_format() {
    for n in [0i64, 7, 10, 42, -1, -10, 123456789, i64::MAX, i64::MIN] {
        assert_eq!(decimal_string(n), format!("{n}"));
    }
}

#[test]
fn parse_u64_reads_unsigned_decimals() {
    assert_eq!(parse_u64("8192"), Some(8192));
    assert_eq!(parse_u64("+5"), Some(5));
    assert_eq!(parse_u64("18446744073709551615"), Some(u64::MAX));
    assert_eq!(parse_u64("18446744073709551616"), None);
    assert_eq!(parse_u64("-1"), None);
    assert_eq!(parse_u64(""), None);
    assert_eq!(parse_u64("12kb"), None);
}

#[test]
fn trim_removes_unicode_whitespace() {
    assert_eq!(trim_str("  hello \n"), "hello");
    assert_eq!(trim_str("\u{3000}\u{a0}text\u{2029}"), "text");
    assert_eq!(trim_str(" a b "), "a b");
    assert_eq!(trim_str("   "), "");
    assert_eq!(trim_str(""), "");
    let s = "\t\u{85}mixed\u{200a} ";
    assert_eq!(trim_str(s), s.trim());
}

#[test]
fn utf8_length_counts_bytes() {
    assert!(!utf8_len_exceeds("hello", 5));
    assert!(utf8_len_exceeds("hello!", 5));
    assert!(utf8_len_exceeds("héllo", 5));
    assert!(!utf8_len_exceeds("héllo", 6));
    assert!(utf8_len_exceeds("😀", 3));
    assert!(!utf8_len_exceeds("", 0));
}

#[test]
fn characters_and_search() {
    let v = chars_of("ab:c:d");
    assert_eq!(v, vec!['a', 'b', ':', 'c', ':', 'd']);
    assert_eq!(find_char_in(&v, ':'), Some(2));
    assert_eq!(find_char_in(&v, 'x'), None);
    assert!(str_equal("true", "true"));
    assert!(!str_equal("true", "True"));
    assert!(!str_equal("true", "tru"));
}

#[test]
fn trimming_twice_is_trimming_once() {
    for s in ["  a  ", "\u{2003}b\u{2003}", "", "   ", "c"] {
        let once = trim_str(s);
        assert_eq!(trim_str(&once), once);
    }
}
