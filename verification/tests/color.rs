use fbcon::color::{Color, ColoredStr, ColorName};
use fbcon::font::{validate_fonts, FontGlyph, GlyphFaultKind};

#[test]
fn color_from_hex() {
    assert_eq!(Color::from_str("#ff0080"), Ok(Color::new(0xFF, 0x00, 0x80)));
    assert_eq!(Color::from_str("#AbCdEf"), Ok(Color::new(0xAB, 0xCD, 0xEF)));
    assert_eq!(Color::from_str("112233"), Err("Color hex code must start with '#'"));
    assert_eq!(Color::from_str("#1234"), Err("Color hex code must be 6 characters long"));
    assert_eq!(Color::from_str("#12345g"), Err("Color hex code must be valid hexadecimal"));
    assert_eq!(Color::from_str(""), Err("Color hex code must start with '#'"));
}

#[test]
fn framebuffer_pixel_order_is_bgr() {
    assert_eq!(Color::new(1, 2, 3).to_framebuffer_pixel(), [3, 2, 1]);
}

#[test]
fn palette_escape_strings() {
    assert_eq!(ColorName::Black.ansi(), "\x1B[30m");
    assert_eq!(ColorName::White.ansi(), "\x1B[37m");
    assert_eq!(ColorName::DefaultForeground.ansi(), "\x1B[39m");
    assert_eq!(ColorName::DefaultBackground.ansi(), "\x1B[38m");
}

#[test]
fn palette_round_trip_through_indices() {
    for index in 0u8..10 {
        let name = ColorName::from_u8(index);
        assert_eq!(name.ansi().as_bytes()[3] - b'0', index);
    }
}

#[test]
fn theme_colors() {
    assert_eq!(ColorName::Red.color(), Color::new(0xEA, 0x69, 0x62));
    assert_eq!(ColorName::DefaultBackground.color(), Color::new(0x29, 0x28, 0x28));
}

#[test]
fn colored_text_wraps_in_escapes() {
    let colored = ColoredStr::new("hi".to_string(), ColorName::Green);
    assert_eq!(colored.render(), "\x1B[32mhi\x1B[39m");

    let recolored = colored.fg(ColorName::Red);
    assert_eq!(recolored.render(), "\x1B[31mhi\x1B[39m");
}

#[test]
fn font_validation_reports_each_violation() {
    let good = FontGlyph::new('a', (2, 3), (1, 2), vec![true; 6]);
    let bad_bitmap = FontGlyph::new('b', (2, 3), (0, 0), vec![true; 5]);
    let too_wide = FontGlyph::new('c', (9, 3), (0, 0), vec![false; 27]);
    let negative = FontGlyph::new('d', (2, 3), (-1, 0), vec![false; 6]);
    let overflowing = FontGlyph::new('e', (2, 3), (6, 0), vec![false; 6]);

    let fonts = vec![good, bad_bitmap, too_wide, negative, overflowing];
    let report = validate_fonts(&fonts, 7, 15);

    assert_eq!(report.len(), 5);
    assert_eq!(report[0].index, 1);
    assert_eq!(report[0].kind, GlyphFaultKind::BitmapSize);
    assert_eq!(report[1].index, 2);
    assert_eq!(report[1].kind, GlyphFaultKind::TooWide);
    assert_eq!(report[2].index, 2);
    assert_eq!(report[2].kind, GlyphFaultKind::OverflowsRight);
    assert_eq!(report[3].index, 3);
    assert_eq!(report[3].kind, GlyphFaultKind::OffsetXNegative);
    assert_eq!(report[4].index, 4);
    assert_eq!(report[4].kind, GlyphFaultKind::OverflowsRight);
}

#[test]
fn font_validation_accepts_a_clean_table() {
    let glyph = FontGlyph::new('x', (7, 15), (0, 0), vec![false; 105]);
    assert!(validate_fonts(&vec![glyph], 7, 15).is_empty());
}

#[test]
fn geometry_pairs() {
    let mut dimensions = fbcon::geometry::Dimensions::new(10u16, 20u16);
    assert_eq!(dimensions.inner(), (10, 20));
    dimensions.set_width(11);
    dimensions.set_height(21);
    assert_eq!((dimensions.width(), dimensions.height()), (11, 21));

    let mut position = fbcon::geometry::Position::new(3u16, 4u16);
    assert_eq!(position.inner(), (3, 4));
    position.inc_x(2);
    position.dec_y(1);
    assert_eq!((position.x(), position.y()), (5, 3));

    // A decrement below zero is a no-op on that axis, never a wraparound.
    position.dec_x(6);
    position.dec_y(100);
    assert_eq!((position.x(), position.y()), (5, 3));
    position.dec_x(5);
    position.dec_y(3);
    assert_eq!(position.inner(), (0, 0));
}

#[test]
fn cursor_input_tracking() {
    let mut cursor = fbcon::cursor::ConsoleCursor::new();
    let screen = fbcon::geometry::Dimensions::new(4u16, 4u16);

    cursor.insert_input('h', screen);
    cursor.insert_input('i', screen);
    assert_eq!(cursor.pos().x(), 2);

    cursor.backspace();
    assert_eq!(cursor.pos().x(), 1);
    assert_eq!(cursor.take_input(), vec!['h']);
    assert_eq!(cursor.pos().x(), 0);

    cursor.backspace();
    assert_eq!(cursor.pos().x(), 0);

    assert!(cursor.toggle_displayed() != cursor.toggle_displayed());
}

#[test]
fn cursor_move_me_saturates_and_guards() {
    let mut cursor = fbcon::cursor::ConsoleCursor::new();

    cursor.move_me(5, 7);
    assert_eq!((cursor.pos().x(), cursor.pos().y()), (5, 7));

    cursor.move_me(-9, 0);
    assert_eq!(cursor.pos().x(), 5);

    cursor.move_me(i32::MAX, -7);
    assert_eq!((cursor.pos().x(), cursor.pos().y()), (u16::MAX, 0));
}
