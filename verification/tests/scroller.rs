use scroll_phat_hd::display::term_display::TermDisplay;
use scroll_phat_hd::font::font;
use scroll_phat_hd::scroller::Scroller;

fn term_scroller() -> Scroller<TermDisplay> {
    Scroller::new(TermDisplay::new())
}

#[test]
fn set_text_supported_width() {
    // Buffer width is the sum of glyph widths plus one spacer per character.
    let mut sc = term_scroller();
    sc.set_text("AB");
    assert_eq!(sc.len(), 4 + 1 + 4 + 1);
    sc.set_text("HI");
    assert_eq!(sc.len(), 4 + 1 + 1 + 1);
    sc.set_text("W");
    assert_eq!(sc.len(), 5 + 1);
}

#[test]
fn set_text_unsupported_gives_empty_buffer() {
    let mut sc = term_scroller();
    sc.set_text("abc?! ,");
    assert_eq!(sc.len(), 0);
}

#[test]
fn set_text_mixed_skips_unsupported() {
    // Unsupported characters contribute nothing, not even spacing.
    let mut sc = term_scroller();
    sc.set_text("A b1");
    assert_eq!(sc.len(), 5 + 4);
}

#[test]
fn set_text_replaces_previous_content() {
    let mut sc = term_scroller();
    sc.set_text("AB");
    sc.set_text("I");
    assert_eq!(sc.len(), 2);
    assert_eq!(sc.offset(), 0);
}

#[test]
fn scroll_advances_and_wraps() {
    let mut sc = term_scroller();
    sc.set_text("I");
    assert_eq!(sc.offset(), 0);
    sc.scroll();
    assert_eq!(sc.offset(), 1);
    sc.scroll();
    assert_eq!(sc.offset(), 0);
}

#[test]
fn scroll_full_cycle_returns_to_start() {
    let mut sc = term_scroller();
    sc.set_text("AB");
    let n = sc.len();
    for _ in 0..3 {
        sc.scroll();
    }
    assert_eq!(sc.offset(), 3);
    for _ in 0..n {
        sc.scroll();
    }
    assert_eq!(sc.offset(), 3);
}

#[test]
fn scroll_empty_buffer_stays_at_zero() {
    let mut sc = term_scroller();
    sc.scroll();
    sc.scroll();
    assert_eq!(sc.offset(), 0);
}

#[test]
fn visible_window_is_always_seventeen_columns() {
    let mut sc = term_scroller();
    assert_eq!(sc.visible_window().len(), 17);
    sc.set_text("A");
    assert_eq!(sc.visible_window().len(), 17);
    sc.set_text("ABCDEFG");
    assert!(sc.len() > 17);
    assert_eq!(sc.visible_window().len(), 17);
}

#[test]
fn visible_window_pads_past_end_with_blank_columns() {
    let mut sc = term_scroller();
    sc.set_text("A");
    let w = sc.visible_window();
    for x in 0..5 {
        assert_eq!(w[x], sc.column(x));
    }
    for x in 5..17 {
        assert_eq!(w[x], [0u8; 7]);
    }
}

#[test]
fn visible_window_follows_the_cursor() {
    let mut sc = term_scroller();
    sc.set_text("AB");
    sc.scroll();
    sc.scroll();
    let w = sc.visible_window();
    assert_eq!(w[0], sc.column(2));
    assert_eq!(w[7], sc.column(9));
    assert_eq!(w[8], [0u8; 7]);
}

#[test]
fn set_pixel_sets_and_extends() {
    let mut sc = term_scroller();
    sc.set_pixel(3, 2, 9);
    assert_eq!(sc.len(), 4);
    assert_eq!(sc.column(3), [0, 0, 9, 0, 0, 0, 0]);
    assert_eq!(sc.column(0), [0u8; 7]);
    sc.set_pixel(1, 6, 5);
    assert_eq!(sc.len(), 4);
    assert_eq!(sc.column(1), [0, 0, 0, 0, 0, 0, 5]);
}

#[test]
fn set_pixel_row_out_of_range_is_a_noop() {
    // A vertical write outside the matrix must not extend the buffer.
    let mut sc = term_scroller();
    sc.set_pixel(0, 10, 5);
    assert_eq!(sc.len(), 0);
    sc.set_text("A");
    let before: Vec<[u8; 7]> = (0..sc.len()).map(|x| sc.column(x)).collect();
    sc.set_pixel(0, 10, 5);
    sc.set_pixel(40, 7, 1);
    assert_eq!(sc.len(), before.len());
    for (x, col) in before.iter().enumerate() {
        assert_eq!(sc.column(x), *col);
    }
}

#[test]
fn clear_resets_buffer_and_cursor() {
    let mut sc = term_scroller();
    sc.set_text("AB");
    sc.scroll();
    sc.clear();
    assert_eq!(sc.len(), 0);
    assert_eq!(sc.offset(), 0);
}

#[test]
fn text_a_end_to_end() {
    // The first column belongs to glyph 'A', the last is the spacer, and
    // the window shows blank columns from there on.
    let mut sc = term_scroller();
    sc.set_text("A");
    let glyph = font('A').unwrap();
    assert_eq!(sc.len(), 5);
    assert_eq!(sc.column(0), glyph[0]);
    assert_eq!(sc.column(3), glyph[3]);
    assert_eq!(sc.column(4), [0u8; 7]);
    let w = sc.visible_window();
    assert_eq!(w[0], glyph[0]);
    for x in 5..17 {
        assert_eq!(w[x], [0u8; 7]);
    }
}
