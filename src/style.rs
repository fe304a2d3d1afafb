//! Terminal color sequences, as crossterm writes them.

use crossterm::Command;
use vstd::prelude::*;

verus! {

/// The foreground colors that levels use.
#[derive(Clone, Copy, Debug, PartialEq, Eq)]
pub enum TermColor {
    White,
    Yellow,
    Red,
}

/// A control sequence: escape, `[`, the parameters, `m`.
pub open spec fn csi(params: Seq<char>) -> Seq<char> {
    seq!['\u{1b}', '['] + params + seq!['m']
}

/// The parameters that select `c` from the 256-color palette.
pub open spec fn foreground_params(c: TermColor) -> Seq<char> {
    match c {
        TermColor::White => seq!['3', '8', ';', '5', ';', '1', '5'],
        TermColor::Yellow => seq!['3', '8', ';', '5', ';', '1', '1'],
        TermColor::Red => seq!['3', '8', ';', '5', ';', '9'],
    }
}

/// What may be written to switch the foreground to `c`: the color's sequence, or,
/// where the environment turns colors off (`NO_COLOR`), the sequence with no parameters.
pub open spec fn is_foreground_sequence(c: TermColor, s: Seq<char>) -> bool {
    s == csi(foreground_params(c)) || s == csi(Seq::empty())
}

/// The sequence that restores the default colors.
pub open spec fn reset_sequence() -> Seq<char> {
    csi(seq!['0'])
}

/// Relies on crossterm's `SetForegroundColor::write_ansi`, which writes
/// `ESC [ 38;5;<n> m` for the palette entry of the color, or `ESC [ m` once the
/// environment has turned colors off.
#[verifier::external_body]
pub(crate) fn foreground(c: TermColor) -> (r: String)
    ensures
        is_foreground_sequence(c, r@),
{
    let color = match c {
        TermColor::White => crossterm::style::Color::White,
        TermColor::Yellow => crossterm::style::Color::Yellow,
        TermColor::Red => crossterm::style::Color::Red,
    };
    let mut s = String::new();
    let _ = crossterm::style::SetForegroundColor(color).write_ansi(&mut s);
    s
}

/// Relies on crossterm's `ResetColor::write_ansi`, which writes `ESC [ 0 m`.
#[verifier::external_body]
pub(crate) fn reset() -> (r: String)
    ensures
        r@ == reset_sequence(),
{
    let mut s = String::new();
    let _ = crossterm::style::ResetColor.write_ansi(&mut s);
    s
}

} // verus!
