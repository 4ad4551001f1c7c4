use trss::entities::decode_entities_str;
use trss::order::{lex_less, sort_strings};
use trss::style::Color;
use trss::text::{
    concat_text, contains_str, decimal_string, join_strings, lines_of, pop_char, replace_str, same_text,
    starts_with_str, to_lowercase, trim_string,
};

#[test]
fn concat_joins_in_order() {
    assert_eq!(concat_text("ab", "cd"), "abcd");
    assert_eq!(concat_text("", "x"), "x");
    assert_eq!(concat_text("é", ""), "é");
}

#[test]
fn contains_finds_inner_text() {
    assert!(contains_str("hello world", "lo w"));
    assert!(contains_str("abc", ""));
    assert!(!contains_str("abc", "abcd"));
    assert!(!contains_str("", "a"));
}

#[test]
fn decimal_digits() {
    assert_eq!(decimal_string(0), "0");
    assert_eq!(decimal_string(7), "7");
    assert_eq!(decimal_string(1234567890), "1234567890");
    assert_eq!(decimal_string(u64::MAX), "18446744073709551615");
}

#[test]
fn join_with_separator() {
    let parts = vec![String::from("a"), String::from("b"), String::from("c")];
    assert_eq!(join_strings(&parts, "\n"), "a\nb\nc");
    assert_eq!(join_strings(&Vec::new(), ", "), "");
}

#[test]
fn lines_split_like_str_lines() {
    assert_eq!(lines_of("a\nb\r\nc"), vec!["a", "b", "c"]);
    assert_eq!(lines_of("a\n"), vec!["a"]);
    assert_eq!(lines_of(""), Vec::<String>::new());
    assert_eq!(lines_of("\n\nx"), vec!["", "", "x"]);
}

#[test]
fn pop_removes_last_char() {
    let mut s = String::from("añ");
    pop_char(&mut s);
    assert_eq!(s, "a");
    pop_char(&mut s);
    pop_char(&mut s);
    assert_eq!(s, "");
}

#[test]
fn replace_every_occurrence() {
    assert_eq!(replace_str("a-b-c", "-", "+"), "a+b+c");
    assert_eq!(replace_str("aaa", "aa", "b"), "ba");
    assert_eq!(replace_str("xyz", "q", "r"), "xyz");
}

#[test]
fn same_text_compares_chars() {
    assert!(same_text("readlist", "readlist"));
    assert!(!same_text("readlist", "Readlist"));
}

#[test]
fn starts_with_prefix() {
    assert!(starts_with_str("favourites", "fav"));
    assert!(!starts_with_str("fav", "favourites"));
}

#[test]
fn lowercase_changes_capitals() {
    assert_eq!(to_lowercase("FaVoUrItEs"), "favourites");
    assert_eq!(to_lowercase("ÀB"), "àb");
}

#[test]
fn trim_removes_outer_white_space() {
    assert_eq!(trim_string("  a b \n\t"), "a b");
    assert_eq!(trim_string("   "), "");
}

#[test]
fn entities_are_decoded() {
    assert_eq!(decode_entities_str("a &lt;b&gt; &amp; c"), "a <b> & c");
    assert_eq!(decode_entities_str("&amp;lt;"), "&lt;");
    assert_eq!(decode_entities_str("it&#39;s &hellip;"), "it's \u{2026}");
    assert_eq!(decode_entities_str("&copy;&nbsp;2024"), "\u{a9} 2024");
}

#[test]
fn text_without_ampersand_is_unchanged() {
    assert_eq!(decode_entities_str("no entities; here < >"), "no entities; here < >");
}

#[test]
fn names_sort_by_characters() {
    let names = vec![String::from("Light"), String::from("Dark"), String::from("Amber"), String::from("Dark")];
    assert_eq!(sort_strings(&names), vec!["Amber", "Dark", "Dark", "Light"]);
    assert!(lex_less(&String::from("Da"), &String::from("Dark")));
    assert!(!lex_less(&String::from("Dark"), &String::from("Dark")));
}

#[test]
fn colour_from_hex() {
    assert_eq!(Color::from_u32(0x123456), Color::Rgb(0x12, 0x34, 0x56));
    assert_eq!(Color::from_u32(0xff000000), Color::Rgb(0, 0, 0));
}
