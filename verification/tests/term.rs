use scroll_phat_hd::display::term_display::{render_term, TermDisplay};
use scroll_phat_hd::display::unicode_display::{render_unicode, UnicodeDisplay};
use scroll_phat_hd::display::Display;

fn goto(x: u16, y: u16) -> String {
    format!("\x1b[{};{}H", y, x)
}

#[test]
fn render_term_empty_buffer_only_clears() {
    assert_eq!(render_term(&[]), "\x1b[2J");
}

#[test]
fn render_term_one_column() {
    let s = render_term(&[[0, 9, 0, 0, 0, 0, 255]]);
    let mut expected = String::from("\x1b[2J");
    for y in 0..7u16 {
        expected.push_str(&goto(1, y + 1));
        expected.push(if y == 1 || y == 6 { '#' } else { ' ' });
        expected.push('\n');
    }
    assert_eq!(s, expected);
}

#[test]
fn render_term_two_columns_column_major() {
    let s = render_term(&[[1, 0, 0, 0, 0, 0, 0], [0, 0, 0, 0, 0, 0, 1]]);
    let mut expected = String::from("\x1b[2J");
    for x in 0..2u16 {
        for y in 0..7u16 {
            let lit = (x == 0 && y == 0) || (x == 1 && y == 6);
            expected.push_str(&goto(x + 1, y + 1));
            expected.push(if lit { '#' } else { ' ' });
            expected.push('\n');
        }
    }
    assert_eq!(s, expected);
}

#[test]
fn render_term_draws_at_most_the_matrix_width() {
    let wide = vec![[3u8; 7]; 25];
    let narrow = vec![[3u8; 7]; 17];
    assert_eq!(render_term(&wide), render_term(&narrow));
}

#[test]
fn term_show_never_fails() {
    let mut d = TermDisplay::new();
    assert_eq!(d.show(&[[0u8; 7]; 17]), Ok(()));
    assert_eq!(d.show(&[]), Ok(()));
}

fn expected_unicode(buffer: &[[u8; 7]]) -> String {
    let mut expected = String::from("\x1b[2J");
    expected.push_str(&goto(1, 1));
    expected.push_str("╔\n");
    for y in 0..7u16 {
        expected.push_str(&goto(1, y + 2));
        expected.push_str("║\n");
    }
    expected.push_str(&goto(1, 9));
    expected.push_str("╚\n");
    for x in 0..17u16 {
        expected.push_str(&goto(x + 2, 1));
        expected.push_str("═\n");
        for y in 0..7u16 {
            let v = buffer.get(x as usize).map(|c| c[y as usize]).unwrap_or(0);
            expected.push_str(&goto(x + 2, y + 2));
            expected.push_str(if v == 0 { "░\n" } else { "▓\n" });
        }
        expected.push_str(&goto(x + 2, 9));
        expected.push_str("═\n");
    }
    expected.push_str(&goto(18, 1));
    expected.push_str("╗\n");
    for y in 0..7u16 {
        expected.push_str(&goto(18, y + 2));
        expected.push_str("║\n");
    }
    expected.push_str(&goto(18, 9));
    expected.push_str("╝\n");
    expected
}

#[test]
fn render_unicode_empty_buffer_draws_frame_and_blanks() {
    assert_eq!(render_unicode(&[]), expected_unicode(&[]));
}

#[test]
fn render_unicode_marks_lit_pixels() {
    let buffer = [[9, 0, 0, 0, 0, 0, 4]];
    assert_eq!(render_unicode(&buffer), expected_unicode(&buffer));
    assert!(render_unicode(&buffer).contains('▓'));
}

#[test]
fn unicode_show_never_fails() {
    let mut d = UnicodeDisplay::new();
    assert_eq!(d.show(&[[1u8; 7]; 17]), Ok(()));
    assert_eq!(d.show(&[]), Ok(()));
}
