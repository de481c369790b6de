use hake::text::{
    contains_string, join_with, parse_u16, parse_u32, remove_all, split_char, split_spaces,
    str_ends_with, str_eq, str_starts_with, trim,
};

#[test]
fn parse_u16_accepts_what_str_parse_accepts() {
    assert_eq!(parse_u16("0"), Some(0));
    assert_eq!(parse_u16("80"), Some(80));
    assert_eq!(parse_u16("65535"), Some(65535));
    assert_eq!(parse_u16("+17"), Some(17));
    assert_eq!(parse_u16("0080"), Some(80));
    assert_eq!(parse_u16("000000000000065535"), Some(65535));
}

#[test]
fn parse_u16_rejects_what_str_parse_rejects() {
    assert_eq!(parse_u16(""), None);
    assert_eq!(parse_u16("+"), None);
    assert_eq!(parse_u16("-1"), None);
    assert_eq!(parse_u16("-0"), None);
    assert_eq!(parse_u16("65536"), None);
    assert_eq!(parse_u16("1 2"), None);
    assert_eq!(parse_u16("12a"), None);
    assert_eq!(parse_u16("1+2"), None);
}

#[test]
fn parse_u32_covers_its_range() {
    assert_eq!(parse_u32("4294967295"), Some(4294967295));
    assert_eq!(parse_u32("4294967296"), None);
    assert_eq!(parse_u32("123456789"), Some(123456789));
    assert_eq!(parse_u32("x"), None);
}

#[test]
fn split_char_keeps_empty_parts() {
    assert_eq!(split_char("a&b&c", '&'), vec!["a", "b", "c"]);
    assert_eq!(split_char("a&&b", '&'), vec!["a", "", "b"]);
    assert_eq!(split_char("", '&'), vec![""]);
    assert_eq!(split_char("&", '&'), vec!["", ""]);
    assert_eq!(split_char("key=value", '='), vec!["key", "value"]);
}

#[test]
fn split_spaces_drops_empty_runs() {
    assert_eq!(split_spaces("  a \t b\nc  "), vec!["a", "b", "c"]);
    assert_eq!(split_spaces(""), Vec::<String>::new());
    assert_eq!(split_spaces("   "), Vec::<String>::new());
    assert_eq!(split_spaces("one"), vec!["one"]);
}

#[test]
fn join_with_inserts_the_separator_between_parts() {
    let v = vec![String::from("a"), String::from("b"), String::from("c")];
    assert_eq!(join_with(&v, " "), "a b c");
    assert_eq!(join_with(&Vec::new(), " "), "");
    assert_eq!(join_with(&vec![String::from("x")], ","), "x");
}

#[test]
fn join_then_split_restores_the_arguments() {
    let args = vec![
        String::from("create"),
        String::from("cluster"),
        String::from("--name"),
        String::from("demo"),
    ];
    let line = join_with(&args, " ");
    assert_eq!(split_spaces(&line), args);
}

#[test]
fn trim_removes_unicode_whitespace_at_both_ends() {
    assert_eq!(trim("  x "), "x");
    assert_eq!(trim("\t10.0.0.1\n"), "10.0.0.1");
    assert_eq!(trim("\u{00A0}a\u{3000}"), "a");
    assert_eq!(trim("a b"), "a b");
    assert_eq!(trim("   "), "");
    assert_eq!(trim(""), "");
}

#[test]
fn remove_all_strips_every_occurrence() {
    assert_eq!(remove_all("a-control-plane-b-control-plane", "-control-plane"), "a-b");
    assert_eq!(remove_all("///a//b/", "/"), "ab");
    assert_eq!(remove_all("abc", "xyz"), "abc");
    assert_eq!(remove_all("aaa", "aa"), "a");
    assert_eq!(remove_all("", "x"), "");
}

#[test]
fn affix_checks_match_std() {
    assert!(str_ends_with("demo-control-plane", "-control-plane"));
    assert!(!str_ends_with("demo-control-plane2", "-control-plane"));
    assert!(!str_ends_with("short", "-control-plane"));
    assert!(str_starts_with("kindest/node:v1.18", "kindest/node"));
    assert!(!str_starts_with("kind", "kindest/node"));
    assert!(str_eq("same", "same"));
    assert!(!str_eq("same", "sane"));
    assert!(!str_eq("same", "same "));
}

#[test]
fn contains_string_finds_exact_entries() {
    let v = vec![String::from("a"), String::from("bb")];
    assert!(contains_string(&v, "a"));
    assert!(contains_string(&v, "bb"));
    assert!(!contains_string(&v, "b"));
    assert!(!contains_string(&Vec::new(), "a"));
}
