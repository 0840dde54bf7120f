use rpdf::text::{
    ascii_lowercase_chars, contains_chars, decimal_chars, nonblank_trimmed_lines,
    split_whitespace, str_chars, string_from_chars, trim_chars, trimmed_nonblank_pieces,
};

fn chars(s: &str) -> Vec<char> {
    s.chars().collect()
}

fn rows(v: Vec<Vec<char>>) -> Vec<String> {
    v.into_iter().map(|r| r.into_iter().collect()).collect()
}

#[test]
fn splits_on_unicode_whitespace() {
    let words = split_whitespace(&chars("  alpha\u{00A0}beta\u{3000}\tgamma\n"));
    assert_eq!(rows(words), vec!["alpha", "beta", "gamma"]);
    assert!(split_whitespace(&chars(" \n\t ")).is_empty());
}

#[test]
fn trims_both_ends_only() {
    assert_eq!(string_from_chars(&trim_chars(&chars("\n  a b \t"))), "a b");
    assert_eq!(string_from_chars(&trim_chars(&chars("   "))), "");
}

#[test]
fn finds_substrings() {
    assert!(contains_chars(&chars("abc speechd.sock xyz"), &chars("speechd.sock")));
    assert!(!contains_chars(&chars("speechd.soc"), &chars("speechd.sock")));
    assert!(contains_chars(&chars("abc"), &chars("")));
}

#[test]
fn renders_decimal_numbers() {
    assert_eq!(string_from_chars(&decimal_chars(0)), "0");
    assert_eq!(string_from_chars(&decimal_chars(4096)), "4096");
    assert_eq!(string_from_chars(&decimal_chars(u64::from(u32::MAX))), "4294967295");
    assert_eq!(string_from_chars(&decimal_chars(u64::MAX)), "18446744073709551615");
}

#[test]
fn lowercases_ascii_only() {
    assert_eq!(string_from_chars(&ascii_lowercase_chars(&chars("SaVeD Ä"))), "saved Ä");
}

#[test]
fn keeps_trimmed_non_blank_lines() {
    let lines = nonblank_trimmed_lines(&chars(" first \r\n\n  second\n\n"));
    assert_eq!(rows(lines), vec!["first", "second"]);
}

#[test]
fn splits_sentences_at_terminators() {
    let parts = trimmed_nonblank_pieces(&chars("One. Two!  Three? ."), true);
    assert_eq!(rows(parts), vec!["One", "Two", "Three"]);
}

#[test]
fn converts_between_str_and_chars() {
    assert_eq!(str_chars("héllo"), vec!['h', 'é', 'l', 'l', 'o']);
    assert_eq!(string_from_chars(&vec!['o', 'k']), "ok");
}
