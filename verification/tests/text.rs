use i3_revive::text::{
    after_last, chars_of, contains_text, decimal, parse_u32, parse_u64, replace_all, split_on,
    str_eq, trim_char, trim_end_char, words,
};

#[test]
fn equal_strings_are_equal() {
    assert!(str_eq("", ""));
    assert!(str_eq("workspace", "workspace"));
    assert!(!str_eq("workspace", "workspaces"));
    assert!(!str_eq("a", "b"));
    assert!(str_eq("ünï", "ünï"));
}

#[test]
fn decimal_writes_numerals() {
    assert_eq!(decimal(0), "0");
    assert_eq!(decimal(7), "7");
    assert_eq!(decimal(10), "10");
    assert_eq!(decimal(1234567890), "1234567890");
    assert_eq!(decimal(u64::MAX), "18446744073709551615");
}

#[test]
fn chars_are_listed_in_order() {
    assert_eq!(chars_of("aß→"), vec!['a', 'ß', '→']);
    assert!(chars_of("").is_empty());
}

#[test]
fn split_keeps_empty_pieces() {
    assert_eq!(split_on("a,b,c", ','), vec!["a", "b", "c"]);
    assert_eq!(split_on("", ','), vec![""]);
    assert_eq!(split_on(",", ','), vec!["", ""]);
    assert_eq!(split_on("a,,b,", ','), vec!["a", "", "b", ""]);
    assert_eq!(split_on("no separator", ','), vec!["no separator"]);
    assert_eq!(split_on("é\0ü", '\0'), vec!["é", "ü"]);
}

#[test]
fn trim_strips_both_ends() {
    assert_eq!(trim_char("\0\0a\0b\0", '\0'), "a\0b");
    assert_eq!(trim_char("xxx", 'x'), "");
    assert_eq!(trim_char("", 'x'), "");
    assert_eq!(trim_char("abc", 'x'), "abc");
    assert_eq!(trim_end_char("path\n\n", '\n'), "path");
    assert_eq!(trim_end_char("\npath", '\n'), "\npath");
    assert_eq!(trim_end_char("\n", '\n'), "");
}

#[test]
fn after_last_takes_the_tail() {
    assert_eq!(after_last("/usr/bin/bash", '/'), "bash");
    assert_eq!(after_last("bash", '/'), "bash");
    assert_eq!(after_last("dir/", '/'), "");
    assert_eq!(after_last("", '/'), "");
}

#[test]
fn contains_finds_substrings() {
    assert!(contains_text("echo Revive-Terminal-Window-12", "Revive-Terminal-Window-"));
    assert!(!contains_text("echo Revive-Terminal-Window", "Revive-Terminal-Window-"));
    assert!(contains_text("abc", ""));
    assert!(contains_text("", ""));
    assert!(!contains_text("", "a"));
    assert!(contains_text("aab", "ab"));
    assert!(!contains_text("ab", "abc"));
}

#[test]
fn words_are_cut_at_white_space() {
    assert_eq!(words("  12  34\t56\n"), vec!["12", "34", "56"]);
    assert_eq!(words("one"), vec!["one"]);
    assert!(words("").is_empty());
    assert!(words(" \n\t ").is_empty());
    assert_eq!(words("a\u{a0}b\u{3000}c"), vec!["a", "b", "c"]);
}

#[test]
fn numerals_are_read() {
    assert_eq!(parse_u64("0"), Some(0));
    assert_eq!(parse_u64("007"), Some(7));
    assert_eq!(parse_u64("+5"), Some(5));
    assert_eq!(parse_u64("18446744073709551615"), Some(u64::MAX));
    assert_eq!(parse_u64("18446744073709551616"), None);
    assert_eq!(parse_u64("99999999999999999999999"), None);
    assert_eq!(parse_u64(""), None);
    assert_eq!(parse_u64("+"), None);
    assert_eq!(parse_u64("-1"), None);
    assert_eq!(parse_u64("12a"), None);
    assert_eq!(parse_u64("1 2"), None);
    assert_eq!(parse_u64("٣"), None);
    assert_eq!(parse_u32("4294967295"), Some(u32::MAX));
    assert_eq!(parse_u32("4294967296"), None);
    assert_eq!(parse_u32("1234"), Some(1234));
    assert_eq!(parse_u32("x"), None);
}

#[test]
fn replace_takes_occurrences_from_the_left() {
    assert_eq!(replace_all("kitty -e {cmd}", "{cmd}", "sh -c x"), "kitty -e sh -c x");
    assert_eq!(replace_all("{cmd}{cmd}", "{cmd}", "a"), "aa");
    assert_eq!(replace_all("aaa", "aa", "b"), "ba");
    assert_eq!(replace_all("nothing here", "{cmd}", "x"), "nothing here");
    assert_eq!(replace_all("", "{cmd}", "x"), "");
    assert_eq!(replace_all("abc", "", "x"), "abc");
    assert_eq!(replace_all("{cmd", "{cmd}", "x"), "{cmd");
    assert_eq!(replace_all("x{cmd}y", "{cmd}", ""), "xy");
}
