use grok::text::{chars_of, contains_text, push_decimal, push_digits, split_chars, text_of};

fn decimal(n: i32) -> String {
    let mut out = String::from("n=");
    push_decimal(&mut out, n);
    out
}

#[test]
fn decimal_form_of_integers() {
    assert_eq!(decimal(0), "n=0");
    assert_eq!(decimal(7), "n=7");
    assert_eq!(decimal(10), "n=10");
    assert_eq!(decimal(1234), "n=1234");
    assert_eq!(decimal(-1), "n=-1");
    assert_eq!(decimal(-905), "n=-905");
    assert_eq!(decimal(i32::MAX), "n=2147483647");
    assert_eq!(decimal(i32::MIN), "n=-2147483648");
    let mut out = String::new();
    push_digits(&mut out, u64::MAX);
    assert_eq!(out, "18446744073709551615");
}

#[test]
fn characters_and_slices() {
    let chars = chars_of("héllo");
    assert_eq!(chars, vec!['h', 'é', 'l', 'l', 'o']);
    assert_eq!(text_of(&chars, 1, 4), "éll");
    assert_eq!(text_of(&chars, 2, 2), "");
    assert_eq!(chars_of(""), Vec::<char>::new());
}

#[test]
fn substring_search() {
    assert!(contains_text("hello world", "lo w"));
    assert!(contains_text("hello", "hello"));
    assert!(contains_text("hello", ""));
    assert!(contains_text("", ""));
    assert!(contains_text("aab", "ab"));
    assert!(!contains_text("hello", "hellos"));
    assert!(!contains_text("hello", "World"));
    assert!(!contains_text("", "a"));
    assert!(!contains_text("abc", "ac"));
}

#[test]
fn splitting_keeps_empty_pieces() {
    let split = |s: &str| split_chars(&chars_of(s), 0, ',');
    assert_eq!(split("a,b"), vec!["a", "b"]);
    assert_eq!(split(""), vec![""]);
    assert_eq!(split(","), vec!["", ""]);
    assert_eq!(split("a,,b,"), vec!["a", "", "b", ""]);
    assert_eq!(split("no separator"), vec!["no separator"]);
    assert_eq!(split_chars(&chars_of("all:x,y"), 4, ','), vec!["x", "y"]);
    assert_eq!(split_chars(&chars_of("abc"), 3, ','), vec![""]);
}
