use derrick::text::{
    comes_before, contains, decimal, integer, join, parse_decimal, replace_char, same_text,
    starts_with, strip_leading, trim_end_matches, take_chars, trim, trim_end,
};

#[test]
fn decimal_writes_numbers() {
    assert_eq!(decimal(0), "0");
    assert_eq!(decimal(7), "7");
    assert_eq!(decimal(10), "10");
    assert_eq!(decimal(1234567890), "1234567890");
    assert_eq!(decimal(u64::MAX), "18446744073709551615");
}

#[test]
fn integer_writes_signed_numbers() {
    assert_eq!(integer(0), "0");
    assert_eq!(integer(-1), "-1");
    assert_eq!(integer(124), "124");
    assert_eq!(integer(i64::MIN), "-9223372036854775808");
    assert_eq!(integer(i64::MAX), "9223372036854775807");
}

#[test]
fn parse_decimal_reads_what_decimal_writes() {
    for n in [0u64, 1, 9, 10, 99, 100, 4711, u64::MAX - 1, u64::MAX] {
        assert_eq!(parse_decimal(&decimal(n)), Some(n));
    }
}

#[test]
fn parse_decimal_refuses_other_text() {
    assert_eq!(parse_decimal(""), None);
    assert_eq!(parse_decimal("12a"), None);
    assert_eq!(parse_decimal("-1"), None);
    assert_eq!(parse_decimal(" 1"), None);
    assert_eq!(parse_decimal("18446744073709551616"), None);
    assert_eq!(parse_decimal("99999999999999999999999"), None);
    assert_eq!(parse_decimal("007"), Some(7));
}

#[test]
fn trim_drops_white_space_at_both_ends() {
    assert_eq!(trim("  main\n"), "main");
    assert_eq!(trim("main"), "main");
    assert_eq!(trim(" \t\r\n"), "");
    assert_eq!(trim(""), "");
    assert_eq!(trim("\u{a0}a b\u{3000}"), "a b");
    for s in [" a ", "\n\nx y\t", "\u{2003}z\u{85}", "no-space"] {
        assert_eq!(trim(s), s.trim());
        assert_eq!(trim_end(s), s.trim_end());
    }
}

#[test]
fn trim_end_keeps_the_start() {
    assert_eq!(trim_end("  SGVsbG8=  \n"), "  SGVsbG8=");
}

#[test]
fn strip_suffix_takes_every_repetition() {
    assert_eq!(trim_end_matches("fluyt.git", ".git"), "fluyt");
    assert_eq!(trim_end_matches("fluyt", ".git"), "fluyt");
    assert_eq!(trim_end_matches("fluyt.git.git", ".git"), "fluyt");
    assert_eq!(trim_end_matches(".git", ".git"), "");
    assert_eq!(trim_end_matches("git", ".git"), "git");
    assert_eq!(trim_end_matches("abc", ""), "abc");
    for s in ["a.git", "a.git.git", ".git.gi", "x.gitx"] {
        assert_eq!(trim_end_matches(s, ".git"), s.trim_end_matches(".git"));
    }
}

#[test]
fn strip_leading_takes_the_whole_run() {
    assert_eq!(strip_leading("/x", '/'), "x");
    assert_eq!(strip_leading("///x/y", '/'), "x/y");
    assert_eq!(strip_leading("x/", '/'), "x/");
    assert_eq!(strip_leading("//", '/'), "");
    assert_eq!(strip_leading("", '/'), "");
}

#[test]
fn contains_finds_a_part() {
    assert!(contains("HEAD\nconfig\nobjects\n", "config"));
    assert!(contains("config", "config"));
    assert!(contains("anything", ""));
    assert!(contains("", ""));
    assert!(!contains("", "config"));
    assert!(!contains("confi", "config"));
    assert!(!contains("ls: cannot access '/src/.git': No such file", "config"));
    assert!(contains("xxconfig", "config"));
}

#[test]
fn starts_with_looks_at_the_start_only() {
    assert!(starts_with("https://a", "https://"));
    assert!(!starts_with("http://a", "https://"));
    assert!(!starts_with(" https://a", "https://"));
    assert!(!starts_with("https:/", "https://"));
    assert!(starts_with("abc", ""));
}

#[test]
fn same_text_compares_characters() {
    assert!(same_text("local", "local"));
    assert!(!same_text("local", "Local"));
    assert!(!same_text("local", "locals"));
    assert!(same_text("", ""));
}

#[test]
fn comes_before_orders_like_strings() {
    let words = ["", "A", "B", "a", "ab", "abc", "b", "PATH", "PATHS", "é", "z"];
    for a in words {
        for b in words {
            assert_eq!(comes_before(a, b), a < b, "{:?} {:?}", a, b);
        }
    }
}

#[test]
fn replace_char_and_take_chars() {
    assert_eq!(replace_char("bosunai/build-baseimage", '/', '-'), "bosunai-build-baseimage");
    assert_eq!(replace_char("a/b/c", '/', '-'), "a-b-c");
    assert_eq!(replace_char("", '/', '-'), "");
    assert_eq!(take_chars("0123456789abcdef0123", 16), "0123456789abcdef");
    assert_eq!(take_chars("abc", 16), "abc");
    assert_eq!(take_chars("é🌍x", 2), "é🌍");
}

#[test]
fn join_puts_the_separator_between() {
    assert_eq!(join(&vec![], " "), "");
    assert_eq!(join(&vec!["a".to_string()], " "), "a");
    assert_eq!(join(&vec!["a".to_string(), "b".to_string(), "c".to_string()], ", "), "a, b, c");
}
