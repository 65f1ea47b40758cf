use scroll_phat_hd::display::i2c_display::{led_offset, I2CDisplay, RecordingBus};
use scroll_phat_hd::display::Display;
use scroll_phat_hd::font::font;
use scroll_phat_hd::scroller::Scroller;
use scroll_phat_hd::Error;

#[test]
fn led_offset_values() {
    assert_eq!(led_offset(8, 0), 0);
    assert_eq!(led_offset(8, 6), 6);
    assert_eq!(led_offset(16, 6), 134);
    assert_eq!(led_offset(0, 0), 126);
    assert_eq!(led_offset(0, 6), 120);
    assert_eq!(led_offset(7, 0), 14);
    assert_eq!(led_offset(7, 6), 8);
}

#[test]
fn led_offset_is_a_bijection() {
    // Exhaustive over both formula branches: 119 pixels, 119 distinct
    // offsets, all within the controller's intensity block.
    let mut seen = [false; 135];
    let mut count = 0;
    for x in 0..17 {
        for y in 0..7 {
            let off = led_offset(x, y) as usize;
            assert!(off <= 134);
            assert!(!seen[off], "offset collision at ({}, {})", x, y);
            seen[off] = true;
            count += 1;
        }
    }
    assert_eq!(count, 119);
}

#[test]
fn init_writes_the_documented_sequence() {
    let d = I2CDisplay::with_bus(RecordingBus::new()).unwrap();
    let w = &d.bus().writes;
    assert_eq!(w.len(), 30);
    // Picture mode and audio sync off, each preceded by bank selection.
    assert_eq!((w[0].register, w[0].data.clone()), (0xFD, vec![0x0B]));
    assert_eq!((w[1].register, w[1].data.clone()), (0x00, vec![0x00]));
    assert_eq!((w[2].register, w[2].data.clone()), (0xFD, vec![0x0B]));
    assert_eq!((w[3].register, w[3].data.clone()), (0x06, vec![0x00]));
    // Both frame banks: blink off, intensities zero, LEDs enabled.
    for frame in 0..2u8 {
        let base = 4 + 13 * frame as usize;
        assert_eq!((w[base].register, w[base].data.clone()), (0xFD, vec![frame]));
        let blocks = [(0x12u8, 0u8), (0x24, 0), (0x00, 127)];
        for (b, (start, value)) in blocks.into_iter().enumerate() {
            let lens = [31usize, 31, 31, 26];
            for (c, len) in lens.into_iter().enumerate() {
                let idx = base + 1 + 4 * b + c;
                assert_eq!(w[idx].register, start + 31 * c as u8);
                assert_eq!(w[idx].data, vec![value; len]);
            }
        }
    }
}

#[test]
fn show_flips_between_the_two_frames() {
    let mut d = I2CDisplay::with_bus(RecordingBus::new()).unwrap();
    let buffer = vec![[0u8; 7]; 17];
    d.show(&buffer).unwrap();
    {
        let w = &d.bus().writes;
        assert_eq!(w.len(), 30 + 122);
        assert_eq!((w[30].register, w[30].data.clone()), (0xFD, vec![1]));
        assert_eq!((w[150].register, w[150].data.clone()), (0xFD, vec![0x0B]));
        assert_eq!((w[151].register, w[151].data.clone()), (0x01, vec![1]));
    }
    d.show(&buffer).unwrap();
    let w = &d.bus().writes;
    assert_eq!(w.len(), 30 + 2 * 122);
    assert_eq!((w[152].register, w[152].data.clone()), (0xFD, vec![0]));
    assert_eq!((w[273].register, w[273].data.clone()), (0x01, vec![0]));
}

#[test]
fn show_transmits_pixel_intensities_at_mapped_offsets() {
    let mut d = I2CDisplay::with_bus(RecordingBus::new()).unwrap();
    let mut buffer = vec![[0u8; 7]; 3];
    buffer[0][0] = 9;
    buffer[2][5] = 30;
    d.show(&buffer).unwrap();
    let w = &d.bus().writes;
    for y in 0..7usize {
        for x in 0..17usize {
            let idx = 31 + 17 * y + x;
            assert_eq!(w[idx].register, 0x24 + led_offset(x, y));
            let expected = if x == 0 && y == 0 {
                9
            } else if x == 2 && y == 5 {
                30
            } else {
                0
            };
            assert_eq!(w[idx].data, vec![expected]);
        }
    }
}

#[test]
fn bus_failure_surfaces_and_never_flips() {
    // Whichever single write of a show fails, the caller sees a
    // transmission failure and the frame-select register was not written.
    let buffer = vec![[5u8; 7]; 17];
    for k in 0..122usize {
        let mut d = I2CDisplay::with_bus(RecordingBus::failing_after(30 + k)).unwrap();
        let r = d.show(&buffer);
        assert_eq!(r, Err(Error::TransmissionFailure));
        let w = &d.bus().writes;
        assert_eq!(w.len(), 30 + k);
        for write in &w[30..] {
            assert_ne!(write.register, 0x01, "frame flip happened before failure {}", k);
        }
    }
}

#[test]
fn failed_initialization_is_unrecoverable() {
    for k in [0usize, 1, 4, 10, 29] {
        let r = I2CDisplay::with_bus(RecordingBus::failing_after(k));
        assert!(matches!(r, Err(Error::InitializationFailure)));
    }
    assert!(I2CDisplay::with_bus(RecordingBus::failing_after(30)).is_ok());
}

#[test]
fn scroller_show_reaches_the_matrix() {
    let mut sc = Scroller::new(I2CDisplay::with_bus(RecordingBus::new()).unwrap());
    sc.set_text("A");
    sc.show().unwrap();
    let glyph = font('A').unwrap();
    let w = &sc.display().bus().writes;
    assert_eq!(w.len(), 30 + 122);
    for y in 0..7usize {
        for x in 0..17usize {
            let idx = 31 + 17 * y + x;
            assert_eq!(w[idx].register, 0x24 + led_offset(x, y));
            let expected = if x < 4 { glyph[x][y] } else { 0 };
            assert_eq!(w[idx].data, vec![expected]);
        }
    }
}
