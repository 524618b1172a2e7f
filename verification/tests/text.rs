use ddbcore::case::equal_ignoring_case;
use ddbcore::native_type::{parse_precision_scale, parse_single_len};
use ddbcore::number::{parse_u32, push_hex, push_int, push_nat};
use ddbcore::text;

fn chars(s: &str) -> Vec<char> {
    s.chars().collect()
}

#[test]
fn whitespace_is_what_std_says() {
    for n in 0..=0x10ffffu32 {
        if let Some(c) = char::from_u32(n) {
            assert_eq!(text::is_whitespace(c), c.is_whitespace(), "{n:x}");
        }
    }
}

#[test]
fn trims_both_ends() {
    for s in ["", " ", "a", "  a b\t", "\u{3000}x\u{a0}", "\r\n", "no"] {
        let c = chars(s);
        assert_eq!(text::string_of(text::trim(&c)), s.trim());
        assert_eq!(text::string_of(text::trim_start(&c)), s.trim_start());
        assert_eq!(text::string_of(text::trim_end(&c)), s.trim_end());
    }
}

#[test]
fn splits_at_every_separator() {
    for s in ["", ",", "a", "a,b", ",a,,b,", "a b"] {
        let c = chars(s);
        let parts: Vec<String> = text::split(&c, ',').iter().map(|p| text::string_of(p)).collect();
        let expected: Vec<String> = s.split(',').map(|p| p.to_string()).collect();
        assert_eq!(parts, expected);
    }
}

#[test]
fn joins_with_a_separator() {
    let parts = vec!["a".to_string(), "".to_string(), "c".to_string()];
    assert_eq!(text::join(&parts, ", "), "a, , c");
    assert_eq!(text::join(&Vec::new(), ", "), "");
}

#[test]
fn joined_pieces_split_again() {
    let parts = vec!["x".to_string(), "".to_string(), "yz".to_string()];
    let joined = text::join(&parts, "|");
    let c = chars(&joined);
    let again: Vec<String> = text::split(&c, '|').iter().map(|p| text::string_of(p)).collect();
    assert_eq!(again, parts);
}

#[test]
fn replaces_from_the_left() {
    for (s, from, to) in [
        ("aaa", "aa", "b"),
        ("t_orig and `t_orig`", "t_orig", "t_recreated"),
        ("none", "x", "y"),
        ("", "x", "y"),
        ("abab", "ab", ""),
    ] {
        assert_eq!(text::replace(s, from, to), s.replace(from, to));
    }
}

#[test]
fn doubles_and_undoubles() {
    let mut out = String::new();
    text::push_doubled(&mut out, "it's ''", '\'');
    assert_eq!(out, "it''s ''''");
    assert_eq!(text::undouble(&chars(&out), '\''), "it's ''");
}

#[test]
fn finds_prefixes_suffixes_and_runs() {
    let c = chars("timestamp with time zone");
    assert!(text::has_prefix(&c, "timestamp"));
    assert!(!text::has_prefix(&c, "stamp"));
    assert!(text::has_suffix(&c, "zone"));
    assert!(text::has_text(&c, "with time"));
    assert!(!text::has_text(&c, "without"));
    assert_eq!(text::find_char(&c, 'w'), Some(10));
    assert_eq!(text::find_char(&c, 'x'), None);
}

#[test]
fn writes_and_reads_numbers() {
    for n in [0u64, 7, 10, 65535, u64::MAX] {
        let mut out = String::new();
        push_nat(&mut out, n);
        assert_eq!(out, n.to_string());
    }
    for n in [0i64, -1, 42, i64::MIN, i64::MAX] {
        let mut out = String::new();
        push_int(&mut out, n);
        assert_eq!(out, n.to_string());
    }
    for s in ["0", "007", "+5", "4294967295", "4294967296", "", "-1", "1a", "+"] {
        assert_eq!(parse_u32(&chars(s)), s.parse::<u32>().ok(), "{s}");
    }
    let mut out = String::new();
    push_hex(&mut out, &[0, 15, 160, 255]);
    assert_eq!(out, "000fa0ff");
}

#[test]
fn reads_type_arguments() {
    assert_eq!(parse_single_len(&chars("255")), Some(255));
    assert_eq!(parse_single_len(&chars(" 10 , 2")), Some(10));
    assert_eq!(parse_single_len(&chars("")), None);
    assert_eq!(parse_precision_scale(&chars("10,2")), (Some(10), Some(2)));
    assert_eq!(parse_precision_scale(&chars("10")), (Some(10), None));
    assert_eq!(parse_precision_scale(&chars("x,2")), (None, Some(2)));
}

#[test]
fn compares_ignoring_ascii_case() {
    for (a, b) in [("before", "BEFORE"), ("Yes", "yes"), ("é", "É"), ("a", "ab"), ("", ""), ("[", "{")] {
        assert_eq!(equal_ignoring_case(a, b), a.eq_ignore_ascii_case(b));
    }
}
