//! ANSI color decoration of the output line.
//!
//! The escape sequences themselves come from the `termcodes` crate; the
//! contracts below state the exact character sequences its `Display`
//! implementations write.

use vstd::prelude::*;

use termcodes::color;

use crate::decfmt::spec_dec;
use crate::levels::Level;

verus! {

/// The foreground escape for 256-color ANSI value `code`:
/// `ESC[38;5;<code>m` with the code in decimal.
pub open spec fn fg_ansi_chars(code: int) -> Seq<char> {
    "\u{1b}[38;5;"@ + spec_dec(code) + "m"@
}

/// The foreground-reset escape `ESC[39m`.
pub open spec fn fg_reset_chars() -> Seq<char> {
    "\u{1b}[39m"@
}

/// Relies on `termcodes::color::Fg<AnsiValue>`'s `Display`, which writes
/// `ESC[38;5;` followed by the color value in decimal and `m`.
#[verifier::external_body]
pub fn fg_ansi(code: u8) -> (s: String)
    ensures
        s@ == fg_ansi_chars(code as int),
{
    format!("{}", color::Fg(color::AnsiValue(code)))
}

/// Relies on `termcodes::color::Fg<LightYellow>`'s `Display`, which writes
/// `ESC[38;5;11m`, the escape for ANSI color 11.
#[verifier::external_body]
pub fn fg_light_yellow() -> (s: String)
    ensures
        s@ == fg_ansi_chars(11),
{
    format!("{}", color::Fg(color::LightYellow))
}

/// Relies on `termcodes::color::Fg<LightWhite>`'s `Display`, which writes
/// `ESC[38;5;15m`, the escape for ANSI color 15.
#[verifier::external_body]
pub fn fg_light_white() -> (s: String)
    ensures
        s@ == fg_ansi_chars(15),
{
    format!("{}", color::Fg(color::LightWhite))
}

/// Relies on `termcodes::color::Fg<Reset>`'s `Display`, which writes
/// `ESC[39m`.
#[verifier::external_body]
pub fn fg_reset() -> (s: String)
    ensures
        s@ == fg_reset_chars(),
{
    format!("{}", color::Fg(color::Reset))
}

/// The ANSI color value decorating each level's tag.
pub open spec fn spec_level_color(l: Level) -> int {
    match l {
        Level::Error => 202,
        Level::Warn => 167,
        Level::Info => 136,
        Level::Debug => 64,
        Level::Trace => 32,
    }
}

/// Executable form of [`spec_level_color`].
pub fn level_color(l: Level) -> (c: u8)
    ensures
        c as int == spec_level_color(l),
{
    match l {
        Level::Error => 202,
        Level::Warn => 167,
        Level::Info => 136,
        Level::Debug => 64,
        Level::Trace => 32,
    }
}

} // verus!
