use fb_console::glyph::{CHAR_RASTER_HEIGHT, CHAR_RASTER_WIDTH, FONT_WIDTH, LINE_HEIGHT};
use fb_console::writer::{init_framebuffer, FramebufferWriter};
use noto_sans_mono_bitmap::{get_raster, get_raster_width, FontWeight, RasterHeight};

fn gray8_console(width: u32, height: u32) -> FramebufferWriter {
    let buffer = vec![7u8; (width * height) as usize];
    init_framebuffer(buffer, width, height, 8, width)
}

fn buffer_of(w: &FramebufferWriter) -> Vec<u8> {
    let mut out = Vec::new();
    let mut i = 0;
    while i < w.buffer_len() {
        out.push(w.byte_at(i));
        i += 1;
    }
    out
}

#[test]
fn font_constants_match_the_font() {
    assert_eq!(RasterHeight::Size24.val(), CHAR_RASTER_HEIGHT);
    assert_eq!(
        get_raster_width(FontWeight::Regular, RasterHeight::Size24),
        CHAR_RASTER_WIDTH
    );
}

#[test]
fn init_and_clear_give_zero_buffer_and_home_cursor() {
    let w = gray8_console(40, 48);
    assert_eq!(w.cursor_x(), 0);
    assert_eq!(w.cursor_y(), 0);
    assert_eq!(w.buffer_len(), 40 * 48);
    assert!(buffer_of(&w).iter().all(|&b| b == 0));
}

#[test]
fn clear_after_writing_rezeroes_and_homes() {
    let mut w = gray8_console(60, 48);
    w.write_str("Hi");
    assert!(buffer_of(&w).iter().any(|&b| b != 0));
    w.clear();
    assert_eq!(w.cursor_x(), 0);
    assert_eq!(w.cursor_y(), 0);
    assert!(buffer_of(&w).iter().all(|&b| b == 0));
}

#[test]
fn newline_advances_line_and_resets_column() {
    let mut w = gray8_console(200, 96);
    w.write_str("AB");
    assert_eq!(w.cursor_x(), 2 * FONT_WIDTH);
    assert_eq!(w.cursor_y(), 0);
    w.write_char('\n');
    assert_eq!(w.cursor_x(), 0);
    assert_eq!(w.cursor_y(), LINE_HEIGHT);
    w.write_char('\n');
    assert_eq!(w.cursor_x(), 0);
    assert_eq!(w.cursor_y(), 2 * LINE_HEIGHT);
}

#[test]
fn carriage_return_only_resets_column() {
    let mut w = gray8_console(200, 96);
    w.write_str("AB\r");
    assert_eq!(w.cursor_x(), 0);
    assert_eq!(w.cursor_y(), 0);
}

#[test]
fn overlong_line_wraps_before_rendering() {
    // width 30 holds two glyphs (columns 0..11 and 11..22); the third wraps.
    let mut w = gray8_console(30, 96);
    w.write_str("AAA");
    assert_eq!(w.cursor_y(), LINE_HEIGHT);
    assert_eq!(w.cursor_x(), FONT_WIDTH);
    let buf = buffer_of(&w);
    // The wrapped glyph starts at column 0 of the next line, identical to
    // the first glyph at column 0 of the first line.
    for row in 0..CHAR_RASTER_HEIGHT {
        for col in 0..CHAR_RASTER_WIDTH {
            assert_eq!(
                buf[(LINE_HEIGHT + row) * 30 + col],
                buf[row * 30 + col],
                "wrapped glyph differs at ({row}, {col})"
            );
        }
    }
}

#[test]
fn scroll_shifts_content_up_and_zeroes_bottom() {
    // Two text lines of 24 pixels each.
    let mut w = gray8_console(30, 48);
    w.write_str("A\nB\n");
    let before = buffer_of(&w);
    let line_bytes = LINE_HEIGHT * 30;
    let second_line_before = before[line_bytes..2 * line_bytes].to_vec();
    assert_eq!(w.cursor_y(), 2 * LINE_HEIGHT);

    // The next printable character does not fit: exactly one scroll happens.
    let mut expected_c = gray8_console(30, 48);
    expected_c.write_str("\nC");
    let expected = buffer_of(&expected_c);

    w.write_char('C');
    assert_eq!(w.cursor_y(), LINE_HEIGHT);
    assert_eq!(w.cursor_x(), FONT_WIDTH);
    let after = buffer_of(&w);
    // Content that was one line height down is now at the top.
    assert_eq!(&after[..line_bytes], &second_line_before[..]);
    // The vacated bottom line holds the freshly drawn glyph and zeroes
    // everywhere else, exactly as if 'C' had been drawn on a clean line.
    assert_eq!(&after[line_bytes..], &expected[line_bytes..]);
}

#[test]
fn missing_glyph_renders_replacement() {
    let mut unknown = gray8_console(60, 48);
    let mut replacement = gray8_console(60, 48);
    // The font knows no glyph for this character.
    unknown.write_char('\u{ffff}');
    replacement.write_char('\u{fffd}');
    assert_eq!(buffer_of(&unknown), buffer_of(&replacement));
    assert_eq!(unknown.cursor_x(), replacement.cursor_x());
    assert!(buffer_of(&unknown).iter().any(|&b| b != 0));
}

#[test]
fn oversize_glyph_is_dropped_but_cursor_advances() {
    // Width 8 cannot hold an 11-column glyph: the character first wraps to
    // a new line, is then dropped whole, and the cursor still advances.
    let mut w = gray8_console(8, 96);
    w.write_char('A');
    assert_eq!(w.cursor_y(), LINE_HEIGHT);
    assert_eq!(w.cursor_x(), FONT_WIDTH);
    assert!(buffer_of(&w).iter().all(|&b| b == 0));
}

#[test]
fn gray8_blit_reproduces_font_intensities() {
    let mut w = gray8_console(20, 24);
    w.write_char('A');
    let raster = get_raster('A', FontWeight::Regular, RasterHeight::Size24)
        .expect("the font knows 'A'");
    let rows = raster.raster();
    for row in 0..CHAR_RASTER_HEIGHT {
        for col in 0..CHAR_RASTER_WIDTH {
            assert_eq!(
                w.byte_at(row * 20 + col),
                rows[row][col],
                "pixel ({row}, {col}) differs from the font"
            );
        }
    }
}

#[test]
fn write_str_equals_chars_one_by_one() {
    let mut by_str = gray8_console(60, 96);
    let mut by_char = gray8_console(60, 96);
    by_str.write_str("Hi\nok");
    for c in "Hi\nok".chars() {
        by_char.write_char(c);
    }
    assert_eq!(buffer_of(&by_str), buffer_of(&by_char));
    assert_eq!(by_str.cursor_x(), by_char.cursor_x());
    assert_eq!(by_str.cursor_y(), by_char.cursor_y());
}

#[test]
fn rgb888_console_renders_gray_as_color() {
    let buffer = vec![0u8; 60 * 24 * 3];
    let mut w = init_framebuffer(buffer, 60, 24, 24, 180);
    w.write_char('A');
    let raster = get_raster('A', FontWeight::Regular, RasterHeight::Size24)
        .expect("the font knows 'A'");
    let rows = raster.raster();
    for row in 0..CHAR_RASTER_HEIGHT {
        for col in 0..CHAR_RASTER_WIDTH {
            let base = row * 180 + col * 3;
            let i = rows[row][col];
            assert_eq!(w.byte_at(base), i);
            assert_eq!(w.byte_at(base + 1), i);
            assert_eq!(w.byte_at(base + 2), i);
        }
    }
}
