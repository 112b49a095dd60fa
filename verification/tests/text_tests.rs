use procmon::model::{sort_field_from_name, SortField};
use procmon::text::{contains_chars, decimal_digits, lex_le_chars};

fn chars(s: &str) -> Vec<char> {
    s.chars().collect()
}

#[test]
fn decimal_digits_render_pids() {
    assert_eq!(decimal_digits(0), chars("0"));
    assert_eq!(decimal_digits(7), chars("7"));
    assert_eq!(decimal_digits(42), chars("42"));
    assert_eq!(decimal_digits(10540), chars("10540"));
    assert_eq!(decimal_digits(u64::MAX), chars("18446744073709551615"));
}

#[test]
fn substring_search_finds_and_rejects() {
    assert!(contains_chars(&chars("chrome"), &chars("ch")));
    assert!(contains_chars(&chars("chrome"), &chars("rom")));
    assert!(contains_chars(&chars("chrome"), &chars("chrome")));
    assert!(contains_chars(&chars("chrome"), &chars("")));
    assert!(!contains_chars(&chars("chrome"), &chars("chromes")));
    assert!(!contains_chars(&chars("chrome"), &chars("cr")));
    assert!(!contains_chars(&chars(""), &chars("a")));
}

#[test]
fn lexicographic_order_is_codepoint_order() {
    assert!(lex_le_chars(&chars("abc"), &chars("abd")));
    assert!(!lex_le_chars(&chars("abd"), &chars("abc")));
    assert!(lex_le_chars(&chars("ab"), &chars("abc")));
    assert!(lex_le_chars(&chars("abc"), &chars("abc")));
    assert!(lex_le_chars(&chars(""), &chars("a")));
    // Case-sensitive: uppercase codepoints come first.
    assert!(lex_le_chars(&chars("Zeta"), &chars("alpha")));
}

#[test]
fn sort_field_names_from_settings() {
    assert_eq!(sort_field_from_name(&chars("mem")), SortField::Memory);
    assert_eq!(sort_field_from_name(&chars("name")), SortField::Name);
    assert_eq!(sort_field_from_name(&chars("cpu")), SortField::Cpu);
    // Anything unrecognised falls back to CPU.
    assert_eq!(sort_field_from_name(&chars("bogus")), SortField::Cpu);
    assert_eq!(sort_field_from_name(&chars("")), SortField::Cpu);
}
