//! A debug backend that prints the buffer as `#` and space characters.

use vstd::prelude::*;

use crate::display::{cell_text, clear_seq, clear_text, draw_cell, print_text, Display};
use crate::shared::{cols, Column, DISPLAY_HEIGHT, DISPLAY_WIDTH};
use crate::Error;

verus! {

/// The character printed for a pixel: `#` when lit, space when off.
pub open spec fn term_pixel(v: u8) -> char {
    if v == 0 {
        ' '
    } else {
        '#'
    }
}

/// How many columns are drawn for a buffer of `len` columns: all of them,
/// up to the matrix width.
pub open spec fn term_cols_count(len: nat) -> nat {
    if len <= 17 {
        len
    } else {
        17
    }
}

/// The first `n` cell lines printed for matrix column `x`: one shaded cell
/// per row, top to bottom.
pub open spec fn term_column_cells(rows: Seq<u8>, x: int, n: nat) -> Seq<char>
    decreases n,
{
    if n == 0 {
        Seq::<char>::empty()
    } else {
        term_column_cells(rows, x, (n - 1) as nat)
            + cell_text(x + 1, n as int, seq![term_pixel(rows[n - 1])])
    }
}

/// The cell lines printed for the first `n` columns of the buffer.
pub open spec fn term_columns(buf: Seq<Seq<u8>>, n: nat) -> Seq<char>
    decreases n,
{
    if n == 0 {
        Seq::<char>::empty()
    } else {
        term_columns(buf, (n - 1) as nat) + term_column_cells(buf[n - 1], n - 1, 7)
    }
}

/// Everything `show` prints for a buffer: clear the screen, then the cells
/// of every drawn column.
pub open spec fn term_render(buf: Seq<Seq<u8>>) -> Seq<char> {
    clear_seq() + term_columns(buf, term_cols_count(buf.len()))
}

/// The one-character string for a pixel.
fn pixel_str(v: u8) -> (s: &'static str)
    ensures
        s@ == seq![term_pixel(v)],
{
    proof {
        reveal_strlit(" ");
        reveal_strlit("#");
    }
    if v == 0 {
        " "
    } else {
        "#"
    }
}

/// Builds the full text that `show` prints for this buffer.
pub fn render_term(buffer: &[Column]) -> (s: String)
    ensures
        s@ == term_render(cols(buffer@)),
{
    let ghost buf = cols(buffer@);
    let mut out = clear_text();
    let n: usize = if buffer.len() <= DISPLAY_WIDTH {
        buffer.len()
    } else {
        DISPLAY_WIDTH
    };
    let mut x: usize = 0;
    while x < n
        invariant
            n == term_cols_count(buf.len()),
            n <= buffer@.len(),
            x <= n,
            buf == cols(buffer@),
            out@ =~= clear_seq() + term_columns(buf, x as nat),
        decreases n - x,
    {
        let col: Column = buffer[x];
        assert(col@ == buf[x as int]);
        let mut y: usize = 0;
        while y < DISPLAY_HEIGHT
            invariant
                x < n <= buffer@.len(),
                x < 17,
                y <= 7,
                buf == cols(buffer@),
                col@ == buf[x as int],
                out@ =~= clear_seq() + term_columns(buf, x as nat)
                    + term_column_cells(col@, x as int, y as nat),
        decreases 7 - y,
        {
            let v = col[y];
            let p = pixel_str(v);
            draw_cell(&mut out, (x as u16) + 1, (y as u16) + 1, p);
            y = y + 1;
        }
        assert(out@ =~= clear_seq() + term_columns(buf, (x + 1) as nat));
        x = x + 1;
    }
    out
}

/// A virtual display that prints its buffer to the attached terminal.
///
/// Useful for debugging or prototyping, as it does not require a physical
/// display to be connected. It never fails, and it draws at most the matrix
/// width of columns.
pub struct TermDisplay {
    printed: Ghost<Seq<char>>,
}

impl TermDisplay {
    /// Everything this display has written to the terminal so far.
    pub closed spec fn output(&self) -> Seq<char> {
        self.printed@
    }

    /// Creates a terminal display.
    pub fn new() -> (d: TermDisplay)
        ensures
            d.wf(),
            d.output() == Seq::<char>::empty(),
    {
        TermDisplay { printed: Ghost(Seq::empty()) }
    }
}

impl Display for TermDisplay {
    open spec fn wf(&self) -> bool {
        true
    }

    /// Showing a buffer prints its rendering, and never fails.
    open spec fn shown(pre: Self, post: Self, buf: Seq<Seq<u8>>, r: Result<(), Error>) -> bool {
        &&& r is Ok
        &&& post.output() == pre.output() + term_render(buf)
    }

    fn show(&mut self, buffer: &[Column]) -> (r: Result<(), Error>) {
        let s = render_term(buffer);
        print_text(s.as_str());
        proof {
            self.printed@ = self.printed@ + s@;
        }
        Ok(())
    }
}

} // verus!
