//! A debug backend that prints the buffer with block-shading characters and
//! a box frame around the matrix.

use vstd::prelude::*;

use crate::display::{cell_text, clear_seq, clear_text, draw_cell, print_text, Display};
use crate::shared::{cols, empty_column, window_pixel, Column, DISPLAY_HEIGHT, DISPLAY_WIDTH};
use crate::Error;

verus! {

/// The character printed for a pixel: light shade when off, dark shade when
/// lit.
pub open spec fn shade(v: u8) -> char {
    if v == 0 {
        '░'
    } else {
        '▓'
    }
}

/// The first `n` vertical border cells at screen column `x`, rows 2 to 8.
pub open spec fn border_cells(x: int, n: nat) -> Seq<char>
    decreases n,
{
    if n == 0 {
        Seq::<char>::empty()
    } else {
        border_cells(x, (n - 1) as nat) + cell_text(x, (n - 1) + 2, seq!['║'])
    }
}

/// The left edge of the frame: corners and vertical bar at screen column 1.
pub open spec fn left_border() -> Seq<char> {
    cell_text(1, 1, seq!['╔']) + border_cells(1, 7) + cell_text(1, 9, seq!['╚'])
}

/// The right edge of the frame, drawn one column past the last cell column.
pub open spec fn right_border() -> Seq<char> {
    cell_text(18, 1, seq!['╗']) + border_cells(18, 7) + cell_text(18, 9, seq!['╝'])
}

/// The first `n` shaded cells printed for matrix column `x`, top to bottom.
pub open spec fn unicode_column_cells(buf: Seq<Seq<u8>>, x: int, n: nat) -> Seq<char>
    decreases n,
{
    if n == 0 {
        Seq::<char>::empty()
    } else {
        unicode_column_cells(buf, x, (n - 1) as nat)
            + cell_text(x + 2, (n - 1) + 2, seq![shade(window_pixel(buf, x, n - 1))])
    }
}

/// Everything printed for matrix column `x`: a top border cell, the shaded
/// cells, a bottom border cell.
pub open spec fn unicode_column(buf: Seq<Seq<u8>>, x: int) -> Seq<char> {
    cell_text(x + 2, 1, seq!['═']) + unicode_column_cells(buf, x, 7) + cell_text(x + 2, 9, seq!['═'])
}

/// The text printed for the first `n` matrix columns.
pub open spec fn unicode_columns(buf: Seq<Seq<u8>>, n: nat) -> Seq<char>
    decreases n,
{
    if n == 0 {
        Seq::<char>::empty()
    } else {
        unicode_columns(buf, (n - 1) as nat) + unicode_column(buf, n - 1)
    }
}

/// Everything `show` prints: clear the screen, the left edge, all 17 matrix
/// columns (blank past the buffer's end), and the right edge.
pub open spec fn unicode_render(buf: Seq<Seq<u8>>) -> Seq<char> {
    clear_seq() + left_border() + unicode_columns(buf, 17) + right_border()
}

/// The one-character string for a shaded pixel.
fn shade_str(v: u8) -> (s: &'static str)
    ensures
        s@ == seq![shade(v)],
{
    proof {
        reveal_strlit("░");
        reveal_strlit("▓");
    }
    if v == 0 {
        "░"
    } else {
        "▓"
    }
}

/// Appends one side of the frame (rows 2 to 8 at screen column `x`).
fn draw_border_cells(out: &mut String, x: u16)
    requires
        1 <= x < 100,
    ensures
        final(out)@ == old(out)@ + border_cells(x as int, 7),
{
    let mut y: usize = 0;
    while y < DISPLAY_HEIGHT
        invariant
            1 <= x < 100,
            y <= 7,
            out@ =~= old(out)@ + border_cells(x as int, y as nat),
        decreases 7 - y,
    {
        proof {
            reveal_strlit("║");
        }
        draw_cell(out, x, (y as u16) + 2, "║");
        y = y + 1;
    }
    assert(out@ =~= old(out)@ + border_cells(x as int, 7));
}

/// Builds the full text that `show` prints for this buffer.
pub fn render_unicode(buffer: &[Column]) -> (s: String)
    ensures
        s@ == unicode_render(cols(buffer@)),
{
    let ghost buf = cols(buffer@);
    proof {
        reveal_strlit("╔");
        reveal_strlit("╚");
        reveal_strlit("╗");
        reveal_strlit("╝");
        reveal_strlit("═");
    }
    let mut out = clear_text();
    draw_cell(&mut out, 1, 1, "╔");
    draw_border_cells(&mut out, 1);
    draw_cell(&mut out, 1, 9, "╚");
    assert(out@ =~= clear_seq() + left_border());
    let mut x: usize = 0;
    while x < DISPLAY_WIDTH
        invariant
            x <= 17,
            buf == cols(buffer@),
            out@ =~= clear_seq() + left_border() + unicode_columns(buf, x as nat),
        decreases 17 - x,
    {
        proof {
            reveal_strlit("═");
        }
        draw_cell(&mut out, (x as u16) + 2, 1, "═");
        let col: Column = if x < buffer.len() {
            buffer[x]
        } else {
            empty_column()
        };
        assert(forall|y: int| 0 <= y < 7 ==> col@[y] == window_pixel(buf, x as int, y));
        let mut y: usize = 0;
        while y < DISPLAY_HEIGHT
            invariant
                x < 17,
                y <= 7,
                buf == cols(buffer@),
                forall|i: int| 0 <= i < 7 ==> col@[i] == window_pixel(buf, x as int, i),
                out@ =~= clear_seq() + left_border() + unicode_columns(buf, x as nat)
                    + cell_text(x + 2, 1, seq!['═'])
                    + unicode_column_cells(buf, x as int, y as nat),
            decreases 7 - y,
        {
            let v = col[y];
            let p = shade_str(v);
            draw_cell(&mut out, (x as u16) + 2, (y as u16) + 2, p);
            y = y + 1;
        }
        draw_cell(&mut out, (x as u16) + 2, 9, "═");
        assert(out@ =~= clear_seq() + left_border() + unicode_columns(buf, (x + 1) as nat));
        x = x + 1;
    }
    draw_cell(&mut out, 18, 1, "╗");
    draw_border_cells(&mut out, 18);
    draw_cell(&mut out, 18, 9, "╝");
    assert(out@ =~= unicode_render(buf));
    out
}

/// A virtual display that prints its buffer to the attached terminal inside
/// a box frame.
///
/// Useful for debugging or prototyping, as it does not require a physical
/// display to be connected. It never fails, and always draws the full
/// 17-column matrix, shading columns past the buffer's end as off.
pub struct UnicodeDisplay {
    printed: Ghost<Seq<char>>,
}

impl UnicodeDisplay {
    /// Everything this display has written to the terminal so far.
    pub closed spec fn output(&self) -> Seq<char> {
        self.printed@
    }

    /// Creates a bordered terminal display.
    pub fn new() -> (d: UnicodeDisplay)
        ensures
            d.wf(),
            d.output() == Seq::<char>::empty(),
    {
        UnicodeDisplay { printed: Ghost(Seq::empty()) }
    }
}

impl Display for UnicodeDisplay {
    open spec fn wf(&self) -> bool {
        true
    }

    /// Showing a buffer prints its rendering, and never fails.
    open spec fn shown(pre: Self, post: Self, buf: Seq<Seq<u8>>, r: Result<(), Error>) -> bool {
        &&& r is Ok
        &&& post.output() == pre.output() + unicode_render(buf)
    }

    fn show(&mut self, buffer: &[Column]) -> (r: Result<(), Error>) {
        let s = render_unicode(buffer);
        print_text(s.as_str());
        proof {
            self.printed@ = self.printed@ + s@;
        }
        Ok(())
    }
}

} // verus!
