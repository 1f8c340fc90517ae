use e6kiro::text::{
    first_word_of, has_prefix, has_substring, parse_u32_of, push_decimal, same_text,
    split_on_char,
};

#[test]
fn split_keeps_empty_pieces() {
    assert_eq!(split_on_char("a,,b,", ','), vec!["a", "", "b", ""]);
    assert_eq!(split_on_char("", ','), vec![""]);
    assert_eq!(split_on_char("x y", ' '), vec!["x", "y"]);
}

#[test]
fn first_word_skips_leading_spaces() {
    assert_eq!(first_word_of(" canine 3 --safe"), "canine");
    assert_eq!(first_word_of("fox"), "fox");
    assert_eq!(first_word_of("   "), "");
}

#[test]
fn substring_and_prefix_tests() {
    assert!(has_substring("a --safe b", "--safe"));
    assert!(!has_substring("a --saf", "--safe"));
    assert!(has_prefix("!e6 fox", "!e6"));
    assert!(!has_prefix("!e", "!e6"));
    assert!(same_text("!ping", "!ping"));
    assert!(!same_text("!ping ", "!ping"));
}

#[test]
fn parse_matches_std() {
    for s in ["0", "12", "+5", "", "+", "-1", "1a", "4294967295", "4294967296", "007"] {
        assert_eq!(parse_u32_of(s), s.parse::<u32>().ok(), "{s}");
    }
}

#[test]
fn decimal_text() {
    let mut out = String::from("n=");
    push_decimal(&mut out, 0);
    assert_eq!(out, "n=0");
    let mut out = String::new();
    push_decimal(&mut out, 18446744073709551615);
    assert_eq!(out, "18446744073709551615");
}
