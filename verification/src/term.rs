//! The control sequences that the screen is drawn with. Each comes from
//! termion; the contract of each function says which characters termion
//! writes for it.

use vstd::prelude::*;

verus! {

/// The character of a decimal digit: `0` for 0, and so on up to `9`.
pub open spec fn digit(d: nat) -> char
    recommends
        d < 10,
{
    ('0' as nat + d) as char
}

/// A number in decimal digits, without a sign or leading zeros.
pub open spec fn decimal(n: nat) -> Seq<char>
    decreases n,
{
    if n < 10 {
        seq![digit(n)]
    } else {
        decimal(n / 10).push(digit(n % 10))
    }
}

/// Clears the line from the cursor to its end.
pub open spec fn clear_until_newline_text() -> Seq<char> {
    "\x1b[K"@
}

/// Clears the screen from the cursor on.
pub open spec fn clear_after_cursor_text() -> Seq<char> {
    "\x1b[J"@
}

/// Sets the colour of the text to light cyan.
pub open spec fn light_cyan_text() -> Seq<char> {
    "\x1b[38;5;14m"@
}

/// Sets the colour of the text to magenta.
pub open spec fn magenta_text() -> Seq<char> {
    "\x1b[38;5;5m"@
}

/// Makes the text bold.
pub open spec fn bold_text() -> Seq<char> {
    "\x1b[1m"@
}

/// Sets the text in italics.
pub open spec fn italic_text() -> Seq<char> {
    "\x1b[3m"@
}

/// Sets colour and style back.
pub open spec fn reset_text() -> Seq<char> {
    "\x1b[m"@
}

/// Swaps the colours of text and ground.
pub open spec fn invert_text() -> Seq<char> {
    "\x1b[7m"@
}

/// Puts the cursor in column `x` of row `y`, both counted from 1.
pub open spec fn goto_text(x: u16, y: u16) -> Seq<char> {
    "\x1b["@ + decimal(y as nat) + ";"@ + decimal(x as nat) + "H"@
}

/// Moves the cursor up by `n` rows.
pub open spec fn up_text(n: u16) -> Seq<char> {
    "\x1b["@ + decimal(n as nat) + "A"@
}

/// Moves the cursor left by `n` columns.
pub open spec fn left_text(n: u16) -> Seq<char> {
    "\x1b["@ + decimal(n as nat) + "D"@
}

/// Formats `termion::clear::UntilNewline`, which writes the sequence
/// introducer and `K`.
#[verifier::external_body]
pub(crate) fn clear_until_newline() -> (s: String)
    ensures
        s@ == clear_until_newline_text(),
{
    format!("{}", termion::clear::UntilNewline)
}

/// Formats `termion::clear::AfterCursor`, which writes the sequence
/// introducer and `J`.
#[verifier::external_body]
pub(crate) fn clear_after_cursor() -> (s: String)
    ensures
        s@ == clear_after_cursor_text(),
{
    format!("{}", termion::clear::AfterCursor)
}

/// Formats `termion::color::Fg` of `termion::color::LightCyan`, which
/// writes the foreground sequence of colour 14.
#[verifier::external_body]
pub(crate) fn light_cyan() -> (s: String)
    ensures
        s@ == light_cyan_text(),
{
    format!("{}", termion::color::Fg(termion::color::LightCyan))
}

/// Formats `termion::color::Fg` of `termion::color::Magenta`, which writes
/// the foreground sequence of colour 5.
#[verifier::external_body]
pub(crate) fn magenta() -> (s: String)
    ensures
        s@ == magenta_text(),
{
    format!("{}", termion::color::Fg(termion::color::Magenta))
}

/// Formats `termion::style::Bold`, which writes the sequence introducer
/// and `1m`.
#[verifier::external_body]
pub(crate) fn bold() -> (s: String)
    ensures
        s@ == bold_text(),
{
    format!("{}", termion::style::Bold)
}

/// Formats `termion::style::Italic`, which writes the sequence introducer
/// and `3m`.
#[verifier::external_body]
pub(crate) fn italic() -> (s: String)
    ensures
        s@ == italic_text(),
{
    format!("{}", termion::style::Italic)
}

/// Formats `termion::style::Reset`, which writes the sequence introducer
/// and `m`.
#[verifier::external_body]
pub(crate) fn reset() -> (s: String)
    ensures
        s@ == reset_text(),
{
    format!("{}", termion::style::Reset)
}

/// Formats `termion::style::Invert`, which writes the sequence introducer
/// and `7m`.
#[verifier::external_body]
pub(crate) fn invert() -> (s: String)
    ensures
        s@ == invert_text(),
{
    format!("{}", termion::style::Invert)
}

/// Formats `termion::cursor::Goto`, which writes the sequence introducer,
/// the row, a semicolon, the column and `H`, the numbers in decimal. In a
/// debug build termion refuses column 0 of row 0, which is left out here.
#[verifier::external_body]
pub(crate) fn goto(x: u16, y: u16) -> (s: String)
    requires
        x != 0 || y != 0,
    ensures
        s@ == goto_text(x, y),
{
    format!("{}", termion::cursor::Goto(x, y))
}

/// Formats `termion::cursor::Up`, which writes the sequence introducer,
/// the number in decimal and `A`.
#[verifier::external_body]
pub(crate) fn up(n: u16) -> (s: String)
    ensures
        s@ == up_text(n),
{
    format!("{}", termion::cursor::Up(n))
}

/// Formats `termion::cursor::Left`, which writes the sequence introducer,
/// the number in decimal and `D`.
#[verifier::external_body]
pub(crate) fn left(n: u16) -> (s: String)
    ensures
        s@ == left_text(n),
{
    format!("{}", termion::cursor::Left(n))
}

} // verus!
