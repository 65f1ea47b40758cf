//! Shared geometry of the matrix: one fixed display size and the column type.

use vstd::prelude::*;

verus! {

/// Number of columns of the physical matrix.
pub const DISPLAY_WIDTH: usize = 17;

/// Number of rows of the physical matrix.
pub const DISPLAY_HEIGHT: usize = 7;

/// A vertical strip of pixel intensities, one entry per display row
/// (index 0 is the top row; 0 means off).
pub type Column = [u8; 7];

/// The row sequences of a sequence of columns, one inner sequence per column.
pub open spec fn cols(s: Seq<Column>) -> Seq<Seq<u8>> {
    s.map_values(|c: Column| c@)
}

/// The rows of a column with every row off.
pub open spec fn blank_rows() -> Seq<u8> {
    Seq::new(7, |y: int| 0u8)
}

/// The intensity a backend reads at `(x, y)` of a windowed buffer: the
/// stored value inside the window, and off beyond the window's last column.
pub open spec fn window_pixel(buf: Seq<Seq<u8>>, x: int, y: int) -> u8 {
    if 0 <= x < buf.len() {
        buf[x][y]
    } else {
        0
    }
}

/// A column is blank when every row is off.
pub open spec fn is_blank(c: Column) -> bool {
    c@ =~= blank_rows()
}

/// Returns a column with every row off.
pub fn empty_column() -> (c: Column)
    ensures
        is_blank(c),
{
    [0u8; 7]
}

} // verus!
