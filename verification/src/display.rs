//! Display backends: the capability every output device implements, and the
//! pieces of terminal output the debug backends share.

pub mod i2c_display;
pub mod term_display;
pub mod unicode_display;

use vstd::prelude::*;

use crate::shared::{cols, Column};
use crate::Error;
use std::io::Write;
use vstd::string::StringExecFns;

verus! {

/// A device capable of displaying a rectangular bitmap buffer.
///
/// `show` pushes exactly one frame of pixel data (a windowed sequence of
/// columns, origin at the top left) to the device, and reports a
/// transmission failure, if the backend has such a failure mode, to the
/// caller.
pub trait Display: Sized {
    /// The backend's own well-formedness condition.
    spec fn wf(&self) -> bool;

    /// What one `show` of `buf` does to the backend: how the state after
    /// (`post`) relates to the state before (`pre`), and which results are
    /// possible. Each backend defines it; `show` promises it, so a caller
    /// that only knows the `Display` bound can still hand the relation on.
    spec fn shown(pre: Self, post: Self, buf: Seq<Seq<u8>>, r: Result<(), Error>) -> bool;

    /// Renders one frame of the given columns.
    fn show(&mut self, buffer: &[Column]) -> (r: Result<(), Error>)
        requires
            old(self).wf(),
        ensures
            final(self).wf(),
            Self::shown(*old(self), *final(self), cols(buffer@), r),
    ;
}

/// The character for the decimal digit `d`.
pub open spec fn digit_char(d: int) -> char {
    ((48 + d) as u8) as char
}

/// The decimal rendering of `n`, defined for `0 <= n < 100`.
pub open spec fn decimal_seq(n: int) -> Seq<char> {
    if n < 10 {
        seq![digit_char(n)]
    } else {
        seq![digit_char(n / 10), digit_char(n % 10)]
    }
}

/// The escape sequence that moves the terminal cursor to the one-based
/// position `(x, y)`: `ESC [ y ; x H`.
pub open spec fn goto_seq(x: int, y: int) -> Seq<char> {
    seq!['\x1b', '['] + decimal_seq(y) + seq![';'] + decimal_seq(x) + seq!['H']
}

/// The escape sequence that clears the whole terminal screen: `ESC [ 2 J`.
pub open spec fn clear_seq() -> Seq<char> {
    seq!['\x1b', '[', '2', 'J']
}

/// One printed line fragment: move the cursor to `(x, y)`, draw the cell
/// text, end the line.
pub open spec fn cell_text(x: int, y: int, s: Seq<char>) -> Seq<char> {
    goto_seq(x, y) + s + seq!['\n']
}

/// Relies on termion's `cursor::Goto`: its `core::fmt::Display` impl writes
/// the one-based cursor-position escape sequence `ESC [ y ; x H`, with both
/// coordinates in decimal (and asserts that the position is one-based).
#[verifier::external_body]
pub(crate) fn goto_text(x: u16, y: u16) -> (r: String)
    requires
        1 <= x < 100,
        1 <= y < 100,
    ensures
        r@ == goto_seq(x as int, y as int),
{
    format!("{}", termion::cursor::Goto(x, y))
}

/// Relies on termion's `clear::All`: its `core::fmt::Display` impl writes
/// the clear-screen escape sequence `ESC [ 2 J`.
#[verifier::external_body]
pub(crate) fn clear_text() -> (r: String)
    ensures
        r@ == clear_seq(),
{
    format!("{}", termion::clear::All)
}

/// Relies on `std::io::Stdout`: writes the text to standard output. Output
/// errors are ignored; the terminal backends have no failure mode.
#[verifier::external_body]
pub(crate) fn print_text(s: &str) {
    let _ = write!(std::io::stdout(), "{}", s);
}

/// Appends one cell line to `out`: cursor movement, the cell's text, and a
/// line break.
pub(crate) fn draw_cell(out: &mut String, x: u16, y: u16, s: &str)
    requires
        1 <= x < 100,
        1 <= y < 100,
    ensures
        final(out)@ == old(out)@ + cell_text(x as int, y as int, s@),
{
    let g = goto_text(x, y);
    out.append(g.as_str());
    out.append(s);
    proof {
        reveal_strlit("\n");
    }
    out.append("\n");
    proof {
        assert(out@ =~= old(out)@ + cell_text(x as int, y as int, s@));
    }
}

} // verus!
