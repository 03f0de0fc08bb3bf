use grok::color::{color_str, Color};

#[test]
fn color_codes_are_ansi_sequences() {
    assert_eq!(color_str(true, Color::Red), "\x1B[38;5;1m");
    assert_eq!(color_str(true, Color::Yellow), "\x1B[38;5;3m");
    assert_eq!(color_str(true, Color::Cyan), "\x1B[38;5;6m");
    assert_eq!(color_str(true, Color::Reset), "\x1B[39m");
}

#[test]
fn color_is_empty_when_disabled() {
    assert_eq!(color_str(false, Color::Red), "");
    assert_eq!(color_str(false, Color::Reset), "");
}
