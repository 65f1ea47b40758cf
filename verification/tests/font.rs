use scroll_phat_hd::font::{font, make_glyph};

#[test]
fn font_glyph_a_shape() {
    let g = font('A').unwrap();
    assert_eq!(g.len(), 4);
    assert_eq!(g[0], [0, 0, 15, 15, 15, 15, 15]);
    assert_eq!(g[1], [0, 15, 0, 0, 15, 0, 0]);
    assert_eq!(g[2], [0, 15, 0, 0, 15, 0, 0]);
    assert_eq!(g[3], [0, 0, 15, 15, 15, 15, 15]);
}

#[test]
fn font_glyph_i_narrow() {
    let g = font('I').unwrap();
    assert_eq!(g.len(), 1);
    assert_eq!(g[0], [0, 15, 15, 15, 15, 15, 15]);
}

#[test]
fn font_glyph_widths() {
    assert_eq!(font('1').unwrap().len(), 3);
    assert_eq!(font('L').unwrap().len(), 3);
    assert_eq!(font('M').unwrap().len(), 5);
    assert_eq!(font('W').unwrap().len(), 5);
    assert_eq!(font('0').unwrap().len(), 4);
    assert_eq!(font('Z').unwrap().len(), 4);
}

#[test]
fn font_unsupported_characters() {
    assert!(font('a').is_none());
    assert!(font(' ').is_none());
    assert!(font('?').is_none());
    assert!(font('!').is_none());
    assert!(font('\n').is_none());
}

#[test]
fn make_glyph_pixels() {
    let g = make_glyph(["x ", " x", "x ", " x", "x ", " x", "x "]);
    assert_eq!(g.len(), 2);
    assert_eq!(g[0], [15, 0, 15, 0, 15, 0, 15]);
    assert_eq!(g[1], [0, 15, 0, 15, 0, 15, 0]);
}

#[test]
fn make_glyph_matches_font_table() {
    let art = ["    ", " xx ", "x  x", "x  x", "xxxx", "x  x", "x  x"];
    let g = make_glyph(art);
    let f = font('A').unwrap();
    assert_eq!(g, f);
}
