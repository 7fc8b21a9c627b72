use depotgamedl::text::{
    chars_of, contains_exec, decimal_string, ends_with_exec, find_from, parse_unsigned_exec,
    starts_with_exec, string_from_range, trimmed,
};

fn v(s: &str) -> Vec<char> {
    s.chars().collect()
}

#[test]
fn trimming_removes_unicode_whitespace_at_both_ends() {
    assert_eq!(trimmed("  \t hello world \r\n"), "hello world");
    assert_eq!(trimmed("\u{3000}x\u{a0}"), "x");
    assert_eq!(trimmed("   "), "");
    assert_eq!(trimmed(""), "");
    assert_eq!(trimmed("a b"), "a b");
}

#[test]
fn trimming_twice_changes_nothing() {
    let once = trimmed("  \u{2003}abc \u{85}");
    assert_eq!(trimmed(&once), once);
}

#[test]
fn decimal_notation() {
    assert_eq!(decimal_string(0), "0");
    assert_eq!(decimal_string(7), "7");
    assert_eq!(decimal_string(1234567890), "1234567890");
    assert_eq!(decimal_string(u64::MAX), u64::MAX.to_string());
}

#[test]
fn parsing_follows_str_parse() {
    assert_eq!(parse_unsigned_exec(&v("42"), u32::MAX as u64), Some(42));
    assert_eq!(parse_unsigned_exec(&v("+42"), u32::MAX as u64), Some(42));
    assert_eq!(parse_unsigned_exec(&v("007"), u32::MAX as u64), Some(7));
    assert_eq!(parse_unsigned_exec(&v("4294967295"), u32::MAX as u64), Some(4294967295));
    assert_eq!(parse_unsigned_exec(&v("4294967296"), u32::MAX as u64), None);
    assert_eq!(parse_unsigned_exec(&v("18446744073709551615"), u64::MAX), Some(u64::MAX));
    assert_eq!(parse_unsigned_exec(&v("18446744073709551616"), u64::MAX), None);
    assert_eq!(parse_unsigned_exec(&v(""), u64::MAX), None);
    assert_eq!(parse_unsigned_exec(&v("+"), u64::MAX), None);
    assert_eq!(parse_unsigned_exec(&v("-1"), u64::MAX), None);
    assert_eq!(parse_unsigned_exec(&v("1 "), u64::MAX), None);
    assert_eq!(parse_unsigned_exec(&v("\u{0661}"), u64::MAX), None);
}

#[test]
fn decimal_round_trip_examples() {
    for n in [0u64, 9, 10, 99, 100, 65535, 4294967295, u64::MAX] {
        let s = decimal_string(n);
        assert_eq!(parse_unsigned_exec(&v(&s), u64::MAX), Some(n));
    }
}

#[test]
fn searching() {
    assert_eq!(find_from(&v("abcabc"), &v("bc"), 0), Some(1));
    assert_eq!(find_from(&v("abcabc"), &v("bc"), 2), Some(4));
    assert_eq!(find_from(&v("abcabc"), &v("bd"), 0), None);
    assert_eq!(find_from(&v("ab"), &v("abc"), 0), None);
    assert!(contains_exec(&v("hello"), &v("ell")));
    assert!(!contains_exec(&v("hello"), &v("elo")));
    assert!(starts_with_exec(&v("hello"), &v("he")));
    assert!(!starts_with_exec(&v("hello"), &v("lo")));
    assert!(ends_with_exec(&v("a.manifest"), &v(".manifest")));
    assert!(!ends_with_exec(&v("manifest"), &v(".manifest")));
}

#[test]
fn characters_round_trip() {
    let s = "Déjà vu 黑风";
    let c = chars_of(s);
    assert_eq!(c.len(), 10);
    assert_eq!(string_from_range(&c, 0, c.len()), s);
    assert_eq!(string_from_range(&c, 5, 7), "vu");
}
