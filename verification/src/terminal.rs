//! The escape sequences that the status line is drawn with. The terminal
//! library writes them; this module says what they are.

use vstd::prelude::*;

verus! {

/// The character for a digit below ten.
pub open spec fn digit(d: nat) -> char {
    ('0' as nat + d) as char
}

/// The decimal digits of `n`, without leading zeros.
pub open spec fn decimal(n: nat) -> Seq<char>
    decreases n,
{
    if n < 10 {
        seq![digit(n)]
    } else {
        decimal(n / 10).push(digit(n % 10))
    }
}

/// The sequence that moves the terminal's cursor to column `x` of row `y`,
/// both counted from one: `ESC [ y ; x H`.
pub open spec fn goto_text(x: u16, y: u16) -> Seq<char> {
    seq!['\u{1b}', '['] + decimal(y as nat) + seq![';'] + decimal(x as nat) + seq!['H']
}

/// The sequence that clears the line on which the terminal's cursor stands:
/// `ESC [ 2 K`.
pub open spec fn clear_line_text() -> Seq<char> {
    seq!['\u{1b}', '[', '2', 'K']
}

/// `termion::cursor::Goto(x, y)`, formatted. It writes the escape character
/// and `[`, the row and the column in decimal with `;` between them, and
/// `H`. Its formatting refuses the position (0, 0) in builds with debug
/// assertions, so that position is left out here.
#[verifier::external_body]
pub(crate) fn goto_sequence(x: u16, y: u16) -> (s: String)
    requires
        x != 0 || y != 0,
    ensures
        s@ == goto_text(x, y),
{
    format!("{}", termion::cursor::Goto(x, y))
}

/// `termion::clear::CurrentLine`, formatted: the escape character and `[2K`.
#[verifier::external_body]
pub(crate) fn clear_line_sequence() -> (s: String)
    ensures
        s@ == clear_line_text(),
{
    format!("{}", termion::clear::CurrentLine)
}

} // verus!
