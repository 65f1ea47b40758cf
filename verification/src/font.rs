//! The glyph font: a fixed, pure mapping from characters to small bitmaps.
//!
//! Each glyph is stored as one bitmask per column; bit `y` of a mask says
//! whether the pixel in row `y` is lit. Lit pixels have intensity 15.

use vstd::prelude::*;

use crate::shared::{cols, Column, DISPLAY_HEIGHT};

verus! {

/// A character's bitmap: one `Column` per pixel of glyph width.
pub type Glyph = Vec<Column>;

/// Intensity of a lit font pixel.
pub const GLYPH_INTENSITY: u8 = 15;

/// The column bitmasks of the glyph for `c` (bit `y` set means row `y` is
/// lit), or the empty sequence when the character is unsupported.
pub open spec fn glyph_pattern(c: char) -> Seq<u8> {
    match c {
        '0' => seq![0x3cu8, 0x52, 0x4a, 0x3c],
        '1' => seq![0x44u8, 0x7e, 0x40],
        '2' => seq![0x62u8, 0x52, 0x4a, 0x44],
        '3' => seq![0x42u8, 0x4a, 0x4a, 0x34],
        '4' => seq![0x30u8, 0x28, 0x24, 0x72],
        '5' => seq![0x4eu8, 0x4a, 0x4a, 0x32],
        '6' => seq![0x3cu8, 0x4a, 0x4a, 0x32],
        '7' => seq![0x62u8, 0x12, 0x0a, 0x06],
        '8' => seq![0x34u8, 0x4a, 0x4a, 0x34],
        '9' => seq![0x04u8, 0x4a, 0x4a, 0x3c],
        'A' => seq![0x7cu8, 0x12, 0x12, 0x7c],
        'B' => seq![0x7eu8, 0x4a, 0x4a, 0x34],
        'C' => seq![0x3cu8, 0x42, 0x42, 0x42],
        'D' => seq![0x7eu8, 0x42, 0x42, 0x3c],
        'E' => seq![0x7eu8, 0x4a, 0x4a, 0x42],
        'F' => seq![0x7eu8, 0x0a, 0x0a, 0x02],
        'G' => seq![0x3cu8, 0x42, 0x52, 0x72],
        'H' => seq![0x7eu8, 0x08, 0x08, 0x7e],
        'I' => seq![0x7eu8],
        'J' => seq![0x20u8, 0x40, 0x40, 0x3e],
        'K' => seq![0x7eu8, 0x08, 0x14, 0x62],
        'L' => seq![0x7eu8, 0x40, 0x40],
        'M' => seq![0x7eu8, 0x04, 0x08, 0x04, 0x7e],
        'N' => seq![0x7eu8, 0x04, 0x08, 0x7e],
        'O' => seq![0x3cu8, 0x42, 0x42, 0x3c],
        'P' => seq![0x7eu8, 0x0a, 0x0a, 0x04],
        'Q' => seq![0x3cu8, 0x42, 0x62, 0x3c, 0x40],
        'R' => seq![0x7eu8, 0x0a, 0x0a, 0x74, 0x00],
        'S' => seq![0x44u8, 0x4a, 0x4a, 0x32],
        'T' => seq![0x02u8, 0x02, 0x7e, 0x02, 0x02],
        'U' => seq![0x3eu8, 0x40, 0x40, 0x3e],
        'V' => seq![0x1eu8, 0x20, 0x40, 0x20, 0x1e],
        'W' => seq![0x3eu8, 0x40, 0x30, 0x40, 0x3e],
        'X' => seq![0x62u8, 0x14, 0x08, 0x14, 0x62],
        'Y' => seq![0x02u8, 0x04, 0x78, 0x04, 0x02],
        'Z' => seq![0x62u8, 0x52, 0x4a, 0x46],
        _ => Seq::empty(),
    }
}

/// A character is supported when the font has a glyph for it.
pub open spec fn glyph_supported(c: char) -> bool {
    glyph_pattern(c).len() > 0
}

/// The pixel width of the glyph for `c` (0 when unsupported).
pub open spec fn glyph_width(c: char) -> nat {
    glyph_pattern(c).len()
}

/// The rows a column bitmask encodes: intensity 15 where the bit is set.
pub open spec fn mask_rows(m: u8) -> Seq<u8> {
    Seq::new(7, |y: int| if (m >> (y as u8)) & 1u8 == 1u8 { 15u8 } else { 0u8 })
}

/// The pixel grid of the glyph for `c`, one inner sequence per column.
pub open spec fn glyph_grid(c: char) -> Seq<Seq<u8>> {
    glyph_pattern(c).map_values(|m: u8| mask_rows(m))
}

/// Builds the column a bitmask encodes.
fn column_from_mask(m: u8) -> (c: Column)
    ensures
        c@ =~= mask_rows(m),
{
    let mut c: Column = [0u8; 7];
    let mut y: u8 = 0;
    while y < 7
        invariant
            y <= 7,
            c@.len() == 7,
            forall|i: int| 0 <= i < y ==> c@[i] == mask_rows(m)[i],
            forall|i: int| y <= i < 7 ==> c@[i] == 0,
        decreases 7 - y,
    {
        if (m >> y) & 1 == 1 {
            c[y as usize] = GLYPH_INTENSITY;
        }
        y = y + 1;
    }
    c
}

fn glyph1(m0: u8) -> (g: Glyph)
    ensures
        cols(g@) =~= seq![mask_rows(m0)],
{
    let mut g: Glyph = Vec::new();
    g.push(column_from_mask(m0));
    g
}

fn glyph3(m0: u8, m1: u8, m2: u8) -> (g: Glyph)
    ensures
        cols(g@) =~= seq![mask_rows(m0), mask_rows(m1), mask_rows(m2)],
{
    let mut g: Glyph = Vec::new();
    g.push(column_from_mask(m0));
    g.push(column_from_mask(m1));
    g.push(column_from_mask(m2));
    g
}

fn glyph4(m0: u8, m1: u8, m2: u8, m3: u8) -> (g: Glyph)
    ensures
        cols(g@) =~= seq![mask_rows(m0), mask_rows(m1), mask_rows(m2), mask_rows(m3)],
{
    let mut g: Glyph = Vec::new();
    g.push(column_from_mask(m0));
    g.push(column_from_mask(m1));
    g.push(column_from_mask(m2));
    g.push(column_from_mask(m3));
    g
}

fn glyph5(m0: u8, m1: u8, m2: u8, m3: u8, m4: u8) -> (g: Glyph)
    ensures
        cols(g@) =~= seq![
            mask_rows(m0),
            mask_rows(m1),
            mask_rows(m2),
            mask_rows(m3),
            mask_rows(m4),
        ],
{
    let mut g: Glyph = Vec::new();
    g.push(column_from_mask(m0));
    g.push(column_from_mask(m1));
    g.push(column_from_mask(m2));
    g.push(column_from_mask(m3));
    g.push(column_from_mask(m4));
    g
}

/// Builds a glyph from seven rows of ASCII art of equal width: a space is
/// an unlit pixel, any other character a lit one.
pub fn make_glyph(v: [&str; 7]) -> (g: Glyph)
    requires
        forall|i: int| 0 <= i < 7 ==> (#[trigger] v@[i])@.len() == v@[0]@.len(),
    ensures
        g@.len() == v@[0]@.len(),
        forall|x: int, y: int|
            0 <= x < g@.len() && 0 <= y < 7 ==> g@[x]@[y] == (if v@[y]@[x] == ' ' {
                0u8
            } else {
                GLYPH_INTENSITY
            }),
{
    let width = v[0].unicode_len();
    let mut g: Glyph = Vec::new();
    let mut x: usize = 0;
    while x < width
        invariant
            width == v@[0]@.len(),
            forall|i: int| 0 <= i < 7 ==> (#[trigger] v@[i])@.len() == width,
            x <= width,
            g@.len() == x,
            forall|i: int, y: int|
                0 <= i < x && 0 <= y < 7 ==> g@[i]@[y] == (if v@[y]@[i] == ' ' {
                    0u8
                } else {
                    GLYPH_INTENSITY
                }),
        decreases width - x,
    {
        let mut col: Column = [0u8; 7];
        let mut y: usize = 0;
        while y < DISPLAY_HEIGHT
            invariant
                width == v@[0]@.len(),
                forall|i: int| 0 <= i < 7 ==> (#[trigger] v@[i])@.len() == width,
                x < width,
                y <= 7,
                col@.len() == 7,
                forall|i: int|
                    0 <= i < y ==> col@[i] == (if v@[i]@[x as int] == ' ' {
                        0u8
                    } else {
                        GLYPH_INTENSITY
                    }),
                forall|i: int| y <= i < 7 ==> col@[i] == 0,
            decreases 7 - y,
        {
            let row: &str = v[y];
            let ch = row.get_char(x);
            if ch != ' ' {
                col[y] = GLYPH_INTENSITY;
            }
            y = y + 1;
        }
        g.push(col);
        x = x + 1;
    }
    g
}

/// Looks the glyph for `c` up in the font; `None` for a character the font
/// does not cover.
pub fn font(c: char) -> (r: Option<Glyph>)
    ensures
        match r {
            Some(g) => glyph_supported(c) && cols(g@) =~= glyph_grid(c),
            None => !glyph_supported(c),
        },
{
    match c {
        '0' => Some(glyph4(0x3c, 0x52, 0x4a, 0x3c)),
        '1' => Some(glyph3(0x44, 0x7e, 0x40)),
        '2' => Some(glyph4(0x62, 0x52, 0x4a, 0x44)),
        '3' => Some(glyph4(0x42, 0x4a, 0x4a, 0x34)),
        '4' => Some(glyph4(0x30, 0x28, 0x24, 0x72)),
        '5' => Some(glyph4(0x4e, 0x4a, 0x4a, 0x32)),
        '6' => Some(glyph4(0x3c, 0x4a, 0x4a, 0x32)),
        '7' => Some(glyph4(0x62, 0x12, 0x0a, 0x06)),
        '8' => Some(glyph4(0x34, 0x4a, 0x4a, 0x34)),
        '9' => Some(glyph4(0x04, 0x4a, 0x4a, 0x3c)),
        'A' => Some(glyph4(0x7c, 0x12, 0x12, 0x7c)),
        'B' => Some(glyph4(0x7e, 0x4a, 0x4a, 0x34)),
        'C' => Some(glyph4(0x3c, 0x42, 0x42, 0x42)),
        'D' => Some(glyph4(0x7e, 0x42, 0x42, 0x3c)),
        'E' => Some(glyph4(0x7e, 0x4a, 0x4a, 0x42)),
        'F' => Some(glyph4(0x7e, 0x0a, 0x0a, 0x02)),
        'G' => Some(glyph4(0x3c, 0x42, 0x52, 0x72)),
        'H' => Some(glyph4(0x7e, 0x08, 0x08, 0x7e)),
        'I' => Some(glyph1(0x7e)),
        'J' => Some(glyph4(0x20, 0x40, 0x40, 0x3e)),
        'K' => Some(glyph4(0x7e, 0x08, 0x14, 0x62)),
        'L' => Some(glyph3(0x7e, 0x40, 0x40)),
        'M' => Some(glyph5(0x7e, 0x04, 0x08, 0x04, 0x7e)),
        'N' => Some(glyph4(0x7e, 0x04, 0x08, 0x7e)),
        'O' => Some(glyph4(0x3c, 0x42, 0x42, 0x3c)),
        'P' => Some(glyph4(0x7e, 0x0a, 0x0a, 0x04)),
        'Q' => Some(glyph5(0x3c, 0x42, 0x62, 0x3c, 0x40)),
        'R' => Some(glyph5(0x7e, 0x0a, 0x0a, 0x74, 0x00)),
        'S' => Some(glyph4(0x44, 0x4a, 0x4a, 0x32)),
        'T' => Some(glyph5(0x02, 0x02, 0x7e, 0x02, 0x02)),
        'U' => Some(glyph4(0x3e, 0x40, 0x40, 0x3e)),
        'V' => Some(glyph5(0x1e, 0x20, 0x40, 0x20, 0x1e)),
        'W' => Some(glyph5(0x3e, 0x40, 0x30, 0x40, 0x3e)),
        'X' => Some(glyph5(0x62, 0x14, 0x08, 0x14, 0x62)),
        'Y' => Some(glyph5(0x02, 0x04, 0x78, 0x04, 0x02)),
        'Z' => Some(glyph4(0x62, 0x52, 0x4a, 0x46)),
        _ => None,
    }
}

} // verus!
