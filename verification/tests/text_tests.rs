use cluster_mgr::text::{
    contains_whitespace, i32_to_string, is_blank, join_strings, lines, min_string, parse_i32, replace_str,
    split_by_char, starts_with, str_contains, str_eq, str_lt, u64_to_string, unique_strings,
};

#[test]
fn formats_numbers_in_decimal() {
    assert_eq!(u64_to_string(0), "0");
    assert_eq!(u64_to_string(1234), "1234");
    assert_eq!(u64_to_string(u64::MAX), u64::MAX.to_string());
    assert_eq!(i32_to_string(-42), "-42");
    assert_eq!(i32_to_string(i32::MIN), i32::MIN.to_string());
}

#[test]
fn joins_with_separator() {
    let list = vec!["a".to_string(), "b".to_string(), "c".to_string()];
    assert_eq!(join_strings(&list, ","), "a,b,c");
    assert_eq!(join_strings(&Vec::new(), ","), "");
}

#[test]
fn splits_like_str_split() {
    assert_eq!(split_by_char("a:b::c", ':'), vec!["a", "b", "", "c"]);
    assert_eq!(split_by_char("", ':'), vec![""]);
    assert_eq!(split_by_char(":", ':'), vec!["", ""]);
}

#[test]
fn split_then_join_gives_back_the_string() {
    for s in ["a:b::c", "", ":", "no colon", "::x::"] {
        let parts = split_by_char(s, ':');
        assert_eq!(join_strings(&parts, ":"), s);
    }
}

#[test]
fn reads_lines_like_str_lines() {
    for s in ["a\r\nb\n\nc\n", "x\r", "", "\n", "one", "a\n\r\n"] {
        let expected: Vec<String> = s.lines().map(|l| l.to_string()).collect();
        assert_eq!(lines(s), expected);
    }
}

#[test]
fn parses_i32_like_str_parse() {
    for s in ["42", "-2147483648", "2147483647", "2147483648", "-2147483649", "+7", "-", "+", "", "1a", "007", "99999999999"] {
        assert_eq!(parse_i32(s), s.parse::<i32>().ok(), "input {s:?}");
    }
}

#[test]
fn parse_reads_back_formatted_numbers() {
    for i in [0, 1, -1, 9, 10, -10, 12345, i32::MAX, i32::MIN] {
        assert_eq!(parse_i32(&i32_to_string(i)), Some(i));
    }
}

#[test]
fn replaces_every_occurrence() {
    assert_eq!(replace_str("a_USER_b_USER", "_USER", "x"), "ax_bx");
    for (s, p, w) in [("aaaa", "aa", "b"), ("_USER_USER", "_USER", "u"), ("abcabc", "bc", ""), ("xyz", "xyzw", "q")] {
        assert_eq!(replace_str(s, p, w), s.replace(p, w));
    }
    assert_eq!(replace_str("aaa", "aa", "b"), "ba");
    assert_eq!(replace_str("nothing here", "_USER", "x"), "nothing here");
    assert_eq!(replace_str("cassandra-4.1-bin.tar.gz", "-bin.tar.gz", ""), "cassandra-4.1");
}

#[test]
fn searches_and_compares_strings() {
    assert!(str_contains("monograph-1.0.tar.gz", "monograph"));
    assert!(!str_contains("cassandra.tar.gz", "monograph"));
    assert!(str_contains("abc", ""));
    assert!(starts_with("UN  10.0.0.1", "UN"));
    assert!(!starts_with("U", "UN"));
    assert!(contains_whitespace("a\tb"));
    assert!(!contains_whitespace("ab"));
    assert!(is_blank(" \t\u{3000}"));
    assert!(!is_blank(" x "));
    assert!(str_eq("same", "same"));
    assert!(!str_eq("same", "sam"));
    assert!(str_lt("abc", "abd"));
    assert!(str_lt("ab", "abc"));
    assert!(!str_lt("b", "abc"));
}

#[test]
fn picks_the_smallest_and_the_unique() {
    let hosts = vec!["10.0.0.3".to_string(), "10.0.0.1".to_string(), "10.0.0.2".to_string(), "10.0.0.1".to_string()];
    assert_eq!(min_string(&hosts), "10.0.0.1");
    assert_eq!(unique_strings(&hosts), vec!["10.0.0.3", "10.0.0.1", "10.0.0.2"]);
}
