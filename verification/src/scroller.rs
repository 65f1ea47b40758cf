//! The virtual scrolling buffer: an unbounded-width canvas of columns, a
//! wrapping scroll cursor, and the window sent to a display backend.

use vstd::prelude::*;

use crate::display::Display;
use crate::font::{font, glyph_grid, glyph_supported, glyph_width};
use crate::shared::{blank_rows, cols, empty_column, window_pixel, Column, DISPLAY_HEIGHT, DISPLAY_WIDTH};
use crate::Error;
use vstd::string::StrSliceExecFns;

verus! {

/// The columns one character contributes to the buffer: the glyph's grid
/// followed by exactly one blank spacer column, or nothing at all when the
/// character is unsupported.
pub open spec fn char_cols(c: char) -> Seq<Seq<u8>> {
    if glyph_supported(c) {
        glyph_grid(c).push(blank_rows())
    } else {
        Seq::<Seq<u8>>::empty()
    }
}

/// The buffer `set_text` builds for a text, character by character.
pub open spec fn text_cols(s: Seq<char>) -> Seq<Seq<u8>>
    decreases s.len(),
{
    if s.len() == 0 {
        Seq::<Seq<u8>>::empty()
    } else {
        char_cols(s[0]) + text_cols(s.drop_first())
    }
}

/// The cursor position after one scroll step on a buffer of `len` columns:
/// one to the right, wrapping to 0 at (or past) the end.
pub open spec fn scroll_step(offset: int, len: int) -> int {
    if offset + 1 >= len {
        0
    } else {
        offset + 1
    }
}

/// The cursor position after `n` scroll steps.
pub open spec fn scroll_steps(offset: int, len: int, n: nat) -> int
    decreases n,
{
    if n == 0 {
        offset
    } else {
        scroll_steps(scroll_step(offset, len), len, (n - 1) as nat)
    }
}

/// The window of width 17 a buffer shows from `offset` on: the stored
/// columns, blank past the buffer's end.
pub open spec fn window(buf: Seq<Seq<u8>>, offset: int) -> Seq<Seq<u8>> {
    Seq::new(17, |i: int| if offset + i < buf.len() {
        buf[offset + i]
    } else {
        blank_rows()
    })
}

/// A virtual scrollable buffer with a scroll offset defining a visible
/// window on the buffer itself. It is composed of a horizontally growable
/// virtual buffer and an offset that defines what portion of the buffer is
/// actually visible; `show` sends that window to the owned display backend.
pub struct Scroller<D: Display> {
    virtual_buffer: Vec<Column>,
    scroll_offset: usize,
    display: D,
}

impl<D: Display> Scroller<D> {
    /// The row sequences of the virtual buffer's columns.
    pub closed spec fn buffer(&self) -> Seq<Seq<u8>> {
        cols(self.virtual_buffer@)
    }

    /// The scroll cursor.
    pub closed spec fn cursor(&self) -> int {
        self.scroll_offset as int
    }

    /// Well-formed: the cursor lies inside the buffer (and at 0 when the
    /// buffer is empty), and the display backend is well-formed.
    pub closed spec fn wf(&self) -> bool {
        &&& if self.buffer().len() == 0 {
            self.cursor() == 0
        } else {
            0 <= self.cursor() < self.buffer().len()
        }
        &&& self.display.wf()
    }

    /// Creates a new `Scroller` that drives the provided display.
    pub fn new(display: D) -> (s: Scroller<D>)
        requires
            display.wf(),
        ensures
            s.wf(),
            s.buffer().len() == 0,
            s.cursor() == 0,
            s.backend() == display,
    {
        Scroller { virtual_buffer: Vec::new(), scroll_offset: 0, display }
    }

    /// Moves the visible window one pixel to the right; when the cursor
    /// would run off the end of the virtual buffer it wraps to 0.
    pub fn scroll(&mut self)
        requires
            old(self).wf(),
        ensures
            final(self).wf(),
            final(self).buffer() == old(self).buffer(),
            final(self).cursor() == scroll_step(old(self).cursor(), old(self).buffer().len() as int),
    {
        let len = self.virtual_buffer.len();
        self.scroll_offset = self.scroll_offset + 1;
        if self.scroll_offset >= len {
            self.scroll_offset = 0;
        }
    }

    /// Clears the virtual buffer and resets the cursor.
    pub fn clear(&mut self)
        requires
            old(self).wf(),
        ensures
            final(self).wf(),
            final(self).buffer().len() == 0,
            final(self).cursor() == 0,
    {
        self.virtual_buffer.clear();
        self.scroll_offset = 0;
    }

    /// Sets the value of an individual pixel in the virtual buffer.
    ///
    /// Coordinates are zero-based, with the origin in the top left corner
    /// of the virtual buffer, increasing down and to the right. A row
    /// outside the matrix makes the call a no-op; a column beyond the
    /// buffer's current width first extends the buffer with blank columns.
    pub fn set_pixel(&mut self, x: usize, y: usize, value: u8)
        requires
            old(self).wf(),
            y < 7 ==> x < usize::MAX,
        ensures
            final(self).wf(),
            final(self).cursor() == old(self).cursor(),
            y >= 7 ==> final(self).buffer() == old(self).buffer(),
            y < 7 ==> final(self).buffer().len() == (if x + 1 <= old(self).buffer().len() {
                old(self).buffer().len() as int
            } else {
                x + 1
            }),
            y < 7 ==> forall|i: int, j: int|
                0 <= i < final(self).buffer().len() && 0 <= j < 7 ==> final(self).buffer()[i][j]
                    == (if i == x && j == y {
                    value
                } else {
                    window_pixel(old(self).buffer(), i, j)
                }),
    {
        if y >= DISPLAY_HEIGHT {
            return ;
        }
        let ghost old_v = self.virtual_buffer@;
        let mut len = self.virtual_buffer.len();
        while len < x + 1
            invariant
                x < usize::MAX,
                len == self.virtual_buffer@.len(),
                old_v.len() <= len,
                len <= x + 1 || len == old_v.len(),
                forall|i: int| 0 <= i < old_v.len() ==> self.virtual_buffer@[i] == old_v[i],
                forall|i: int, j: int|
                    old_v.len() <= i < len && 0 <= j < 7 ==> self.virtual_buffer@[i]@[j] == 0,
                self.scroll_offset == old(self).scroll_offset,
                self.display == old(self).display,
            decreases x + 1 - len,
        {
            self.virtual_buffer.push(empty_column());
            len = len + 1;
        }
        let ghost v1 = self.virtual_buffer@;
        let mut col: Column = self.virtual_buffer[x];
        col[y] = value;
        self.virtual_buffer[x] = col;
        proof {
            assert(col@ =~= v1[x as int]@.update(y as int, value));
            assert(self.virtual_buffer@ == v1.update(x as int, col));
            assert forall|i: int, j: int|
                0 <= i < self.buffer().len() && 0 <= j < 7 implies self.buffer()[i][j] == (if i == x
                && j == y {
                value
            } else {
                window_pixel(old(self).buffer(), i, j)
            }) by {
                assert(self.buffer()[i] == self.virtual_buffer@[i]@);
                if i == x as int {
                    assert(self.virtual_buffer@[i] == col);
                } else {
                    assert(self.virtual_buffer@[i] == v1[i]);
                }
            }
        }
    }

    /// Clears the virtual buffer and renders the text into it: for each
    /// character in order, the columns of its glyph followed by one blank
    /// spacer column; unsupported characters contribute nothing.
    pub fn set_text(&mut self, text: &str)
        requires
            old(self).wf(),
        ensures
            final(self).wf(),
            final(self).cursor() == 0,
            final(self).buffer() =~= text_cols(text@),
    {
        self.virtual_buffer.clear();
        self.scroll_offset = 0;
        let n = text.unicode_len();
        let mut i: usize = 0;
        while i < n
            invariant
                n == text@.len(),
                i <= n,
                self.scroll_offset == 0,
                self.display == old(self).display,
                self.display.wf(),
                cols(self.virtual_buffer@) =~= text_cols(text@.take(i as int)),
            decreases n - i,
        {
            let c = text.get_char(i);
            let ghost pre = cols(self.virtual_buffer@);
            match font(c) {
                Some(g) => {
                    let mut j: usize = 0;
                    while j < g.len()
                        invariant
                            j <= g@.len(),
                            cols(g@) =~= glyph_grid(c),
                            cols(self.virtual_buffer@) =~= pre + glyph_grid(c).take(j as int),
                            self.scroll_offset == 0,
                            self.display == old(self).display,
                            self.display.wf(),
                        decreases g@.len() - j,
                    {
                        let ghost prev = self.virtual_buffer@;
                        let column: Column = g[j];
                        proof {
                            assert(column@ == cols(g@)[j as int]);
                        }
                        self.virtual_buffer.push(column);
                        proof {
                            let newv = self.virtual_buffer@;
                            assert(newv == prev.push(column));
                            assert(cols(prev) == pre + glyph_grid(c).take(j as int));
                            assert(cols(g@).len() == g@.len());
                            assert(glyph_grid(c).len() == g@.len());
                            assert(glyph_grid(c).take(j as int).len() == j);
                            assert(cols(prev).len() == prev.len());
                            assert(prev.len() == pre.len() + j);
                            assert forall|k: int| 0 <= k < newv.len() implies cols(newv)[k] == (pre
                                + glyph_grid(c).take(j + 1))[k] by {
                                assert(cols(newv)[k] == newv[k]@);
                                if k < prev.len() {
                                    assert(newv[k] == prev[k]);
                                    assert(prev[k]@ == cols(prev)[k]);
                                } else {
                                    assert(newv[k] == column);
                                    assert(column@ == glyph_grid(c)[j as int]);
                                }
                            }
                            assert(cols(newv) =~= pre + glyph_grid(c).take(j + 1));
                        }
                        j = j + 1;
                    }
                    let ghost prev = self.virtual_buffer@;
                    let spacer = empty_column();
                    self.virtual_buffer.push(spacer);
                    proof {
                        let newv = self.virtual_buffer@;
                        assert(glyph_grid(c).take(g@.len() as int) =~= glyph_grid(c));
                        assert(cols(prev) == pre + glyph_grid(c));
                        assert(spacer@ =~= blank_rows());
                        assert(newv == prev.push(spacer));
                        assert forall|k: int| 0 <= k < newv.len() implies cols(newv)[k] == (pre
                            + char_cols(c))[k] by {
                            assert(cols(newv)[k] == newv[k]@);
                            if k < prev.len() {
                                assert(newv[k] == prev[k]);
                                assert(prev[k]@ == cols(prev)[k]);
                            } else {
                                assert(newv[k] == spacer);
                            }
                        }
                        assert(cols(newv) =~= pre + char_cols(c));
                    }
                },
                None => {
                    proof {
                        assert(char_cols(c) =~= Seq::<Seq<u8>>::empty());
                        assert(cols(self.virtual_buffer@) =~= pre + char_cols(c));
                    }
                },
            }
            proof {
                lemma_text_cols_snoc(text@, i as int);
            }
            i = i + 1;
        }
        proof {
            assert(text@.take(n as int) =~= text@);
        }
    }

    /// Returns the visible window: exactly 17 consecutive columns starting
    /// at the cursor, blank past the end of the virtual buffer.
    pub fn visible_window(&self) -> (w: Vec<Column>)
        requires
            self.wf(),
        ensures
            w@.len() == 17,
            cols(w@) =~= window(self.buffer(), self.cursor()),
    {
        let mut w: Vec<Column> = Vec::new();
        let len = self.virtual_buffer.len();
        let avail: usize = len - self.scroll_offset;
        let mut i: usize = 0;
        while i < DISPLAY_WIDTH
            invariant
                self.wf(),
                i <= 17,
                len == self.virtual_buffer@.len(),
                self.scroll_offset + avail == len,
                w@.len() == i,
                forall|k: int|
                    0 <= k < i ==> w@[k]@ == window(self.buffer(), self.cursor())[k],
            decreases 17 - i,
        {
            if i < avail {
                let column: Column = self.virtual_buffer[self.scroll_offset + i];
                proof {
                    assert(column@ == self.buffer()[self.cursor() + i]);
                }
                w.push(column);
            } else {
                let blank = empty_column();
                proof {
                    assert(blank@ =~= blank_rows());
                }
                w.push(blank);
            }
            i = i + 1;
        }
        proof {
            assert forall|k: int| 0 <= k < 17 implies cols(w@)[k] == window(
                self.buffer(),
                self.cursor(),
            )[k] by {
                assert(cols(w@)[k] == w@[k]@);
            }
        }
        w
    }

    /// The display backend the scroller drives.
    pub closed spec fn backend(&self) -> D {
        self.display
    }

    /// How many columns the virtual buffer holds.
    pub fn len(&self) -> (n: usize)
        ensures
            n == self.buffer().len(),
    {
        self.virtual_buffer.len()
    }

    /// The cursor's current position.
    pub fn offset(&self) -> (o: usize)
        ensures
            o == self.cursor(),
    {
        self.scroll_offset
    }

    /// A copy of the column at `x`.
    pub fn column(&self, x: usize) -> (c: Column)
        requires
            x < self.buffer().len(),
        ensures
            c@ == self.buffer()[x as int],
    {
        self.virtual_buffer[x]
    }

    /// A borrow of the display backend.
    pub fn display(&self) -> (d: &D)
        ensures
            *d == self.backend(),
    {
        &self.display
    }

    /// Computes the visible window and forwards it to the display backend
    /// in one call; the backend's answer, failure included, is handed back
    /// to the caller unchanged, without a retry.
    pub fn show(&mut self) -> (r: Result<(), Error>)
        requires
            old(self).wf(),
        ensures
            final(self).wf(),
            final(self).buffer() == old(self).buffer(),
            final(self).cursor() == old(self).cursor(),
            D::shown(
                old(self).backend(),
                final(self).backend(),
                window(old(self).buffer(), old(self).cursor()),
                r,
            ),
    {
        let w = self.visible_window();
        let r = self.display.show(w.as_slice());
        proof {
            assert(cols(w@) == window(old(self).buffer(), old(self).cursor()));
        }
        r
    }
}

/// Appending a character's columns: the buffer for a text one character
/// longer is the shorter text's buffer followed by that character's columns.
pub proof fn lemma_text_cols_snoc(s: Seq<char>, i: int)
    requires
        0 <= i < s.len(),
    ensures
        text_cols(s.take(i + 1)) =~= text_cols(s.take(i)) + char_cols(s[i]),
    decreases i,
{
    let t = s.take(i + 1);
    if i == 0 {
        assert(t.drop_first() =~= Seq::<char>::empty());
        assert(s.take(0int) =~= Seq::<char>::empty());
    } else {
        let d = s.drop_first();
        lemma_text_cols_snoc(d, i - 1);
        assert(t.drop_first() =~= d.take(i));
        assert(s.take(i).drop_first() =~= d.take(i - 1));
        assert(d.take(i)[i - 1] == s[i]);
        assert(t[0] == s[0]);
        assert(s.take(i)[0] == s[0]);
        assert(text_cols(t) =~= char_cols(s[0]) + (text_cols(d.take(i - 1)) + char_cols(s[i])));
        assert(text_cols(s.take(i)) + char_cols(s[i]) =~= char_cols(s[0]) + (text_cols(
            d.take(i - 1),
        ) + char_cols(s[i])));
    }
}

/// The glyph widths of a text's characters, summed.
pub open spec fn glyph_widths_sum(s: Seq<char>) -> int
    decreases s.len(),
{
    if s.len() == 0 {
        0
    } else {
        glyph_width(s[0]) + glyph_widths_sum(s.drop_first())
    }
}

/// For a text composed only of supported characters, the buffer `set_text`
/// builds is as long as the glyph widths summed plus one spacer column per
/// character.
pub proof fn lemma_text_len_supported(s: Seq<char>)
    requires
        forall|i: int| 0 <= i < s.len() ==> glyph_supported(s[i]),
    ensures
        text_cols(s).len() == glyph_widths_sum(s) + s.len(),
    decreases s.len(),
{
    if s.len() > 0 {
        let d = s.drop_first();
        assert(forall|i: int| 0 <= i < d.len() ==> d[i] == s[i + 1]);
        lemma_text_len_supported(d);
        assert(glyph_grid(s[0]).len() == glyph_width(s[0]));
    }
}

/// For a text composed only of unsupported characters, the buffer
/// `set_text` builds is empty.
pub proof fn lemma_text_len_unsupported(s: Seq<char>)
    requires
        forall|i: int| 0 <= i < s.len() ==> !glyph_supported(s[i]),
    ensures
        text_cols(s).len() == 0,
    decreases s.len(),
{
    if s.len() > 0 {
        let d = s.drop_first();
        assert(forall|i: int| 0 <= i < d.len() ==> d[i] == s[i + 1]);
        lemma_text_len_unsupported(d);
    }
}

/// Where the cursor stands after `n` scroll steps, for `n` at most the
/// buffer length: `n` to the right, less one wrap back to the start.
pub proof fn lemma_scroll_steps_value(offset: int, len: int, n: nat)
    requires
        0 <= offset < len,
        n <= len,
    ensures
        scroll_steps(offset, len, n) == (if offset + n < len {
            offset + n
        } else {
            offset + n - len
        }),
    decreases n,
{
    if n > 0 {
        lemma_scroll_steps_value(scroll_step(offset, len), len, (n - 1) as nat);
    }
}

/// Full-cycle law: applying `scroll` as many times as the buffer is long
/// returns the cursor to its original position.
pub proof fn lemma_scroll_full_cycle(offset: int, len: nat)
    requires
        len == 0 ==> offset == 0,
        len > 0 ==> 0 <= offset < len,
    ensures
        scroll_steps(offset, len as int, len) == offset,
{
    if len > 0 {
        lemma_scroll_steps_value(offset, len as int, len);
    }
}

} // verus!
