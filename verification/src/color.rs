//! Terminal colour escape sequences.

use vstd::prelude::*;

verus! {

/// The colours that a rendered log line uses.
#[derive(Clone, Copy, Debug, PartialEq, Eq, Structural)]
pub enum Color {
    Reset,
    Red,
    Yellow,
    Cyan,
}

/// The escape sequence that switches the terminal's foreground to `c`.
pub open spec fn escape_code(c: Color) -> Seq<char> {
    match c {
        Color::Reset => "\x1B[39m"@,
        Color::Red => "\x1B[38;5;1m"@,
        Color::Yellow => "\x1B[38;5;3m"@,
        Color::Cyan => "\x1B[38;5;6m"@,
    }
}

/// What `color_str` returns: the escape sequence, or nothing where colour is
/// switched off.
pub open spec fn color_text(enabled: bool, c: Color) -> Seq<char> {
    if enabled {
        escape_code(c)
    } else {
        Seq::<char>::empty()
    }
}

/// The colour in which a message of the given severity is shown: red for
/// `ERROR`, yellow for `WARN`, cyan for everything else.
pub open spec fn severity_color_of(level: Seq<char>) -> Color {
    if level == "ERROR"@ {
        Color::Red
    } else if level == "WARN"@ {
        Color::Yellow
    } else {
        Color::Cyan
    }
}

/// `termion::color::Fg(termion::color::Reset)` displayed. Trusted: termion
/// writes the constant `ESC [ 3 9 m`, which restores the default foreground.
#[verifier::external_body]
fn fg_reset() -> (code: String)
    ensures
        code@ == "\x1B[39m"@,
{
    termion::color::Fg(termion::color::Reset).to_string()
}

/// `termion::color::Fg(termion::color::Red)` displayed. Trusted: termion
/// writes `ESC [ 3 8 ; 5 ;`, the palette index 1 and `m`.
#[verifier::external_body]
fn fg_red() -> (code: String)
    ensures
        code@ == "\x1B[38;5;1m"@,
{
    termion::color::Fg(termion::color::Red).to_string()
}

/// `termion::color::Fg(termion::color::Yellow)` displayed. Trusted: termion
/// writes `ESC [ 3 8 ; 5 ;`, the palette index 3 and `m`.
#[verifier::external_body]
fn fg_yellow() -> (code: String)
    ensures
        code@ == "\x1B[38;5;3m"@,
{
    termion::color::Fg(termion::color::Yellow).to_string()
}

/// `termion::color::Fg(termion::color::Cyan)` displayed. Trusted: termion
/// writes `ESC [ 3 8 ; 5 ;`, the palette index 6 and `m`.
#[verifier::external_body]
fn fg_cyan() -> (code: String)
    ensures
        code@ == "\x1B[38;5;6m"@,
{
    termion::color::Fg(termion::color::Cyan).to_string()
}

/// The text that switches the foreground to `c`, or the empty text where
/// colour is switched off.
pub fn color_str(enabled: bool, c: Color) -> (code: String)
    ensures
        code@ == color_text(enabled, c),
{
    if enabled {
        match c {
            Color::Reset => fg_reset(),
            Color::Red => fg_red(),
            Color::Yellow => fg_yellow(),
            Color::Cyan => fg_cyan(),
        }
    } else {
        String::new()
    }
}

/// Picks the colour for a message by its severity.
pub fn severity_color(level: &str) -> (c: Color)
    ensures
        c == severity_color_of(level@),
{
    if *level == *"ERROR" {
        Color::Red
    } else if *level == *"WARN" {
        Color::Yellow
    } else {
        Color::Cyan
    }
}

} // verus!
