use project_butler::text::{
    contains_char, decimal_string, is_whitespace, signed_decimal_string, split_whitespace,
    starts_with, str_eq, trim_str,
};

#[test]
fn trim_removes_unicode_whitespace_at_both_ends() {
    assert_eq!(trim_str("  hello world \t\n"), "hello world");
    assert_eq!(trim_str("\u{3000}x\u{a0}"), "x");
    assert_eq!(trim_str("   "), "");
    assert_eq!(trim_str(""), "");
    assert_eq!(trim_str("a"), "a");
}

#[test]
fn trim_agrees_with_std() {
    for s in ["", " a ", "\u{2028}b c\u{85}", "x\u{200b}", " \u{1680}\u{202f} q"] {
        assert_eq!(trim_str(s), s.trim());
    }
}

#[test]
fn trim_is_idempotent_on_examples() {
    for s in ["  a  b  ", "\tx\n", "", "   "] {
        let once = trim_str(s);
        assert_eq!(trim_str(&once), once);
    }
}

#[test]
fn whitespace_matches_std() {
    for c in [' ', '\t', '\n', '\r', '\u{b}', '\u{c}', '\u{85}', '\u{a0}', '\u{2000}', '\u{3000}', 'a', '\u{200b}', '_'] {
        assert_eq!(is_whitespace(c), c.is_whitespace());
    }
}

#[test]
fn split_whitespace_splits_words() {
    assert_eq!(split_whitespace("run --release  --bin server"), vec!["run", "--release", "--bin", "server"]);
    assert_eq!(split_whitespace("   "), Vec::<String>::new());
    assert_eq!(split_whitespace(""), Vec::<String>::new());
    assert_eq!(split_whitespace("\ta\u{3000}b\n"), vec!["a", "b"]);
}

#[test]
fn split_whitespace_agrees_with_std() {
    for s in ["a b", "  lead", "trail  ", "x\u{2003}y\u{85}z"] {
        let expected: Vec<String> = s.split_whitespace().map(|w| w.to_string()).collect();
        assert_eq!(split_whitespace(s), expected);
    }
}

#[test]
fn decimal_rendering() {
    assert_eq!(decimal_string(0), "0");
    assert_eq!(decimal_string(7), "7");
    assert_eq!(decimal_string(1000), "1000");
    assert_eq!(decimal_string(u64::MAX), u64::MAX.to_string());
    assert_eq!(signed_decimal_string(-1), "-1");
    assert_eq!(signed_decimal_string(137), "137");
    assert_eq!(signed_decimal_string(i32::MIN), "-2147483648");
    assert_eq!(signed_decimal_string(i32::MAX), "2147483647");
}

#[test]
fn small_string_tests() {
    assert!(str_eq("svg", "svg"));
    assert!(!str_eq("svg", "sv"));
    assert!(!str_eq("svg", "svh"));
    assert!(contains_char("icon.png", '.'));
    assert!(!contains_char("\u{1f680}", '.'));
    assert!(starts_with("[err] boom", "[err]"));
    assert!(!starts_with("[er", "[err]"));
    assert!(!starts_with("x[err]", "[err]"));
}
