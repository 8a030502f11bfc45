use fbcon::console::{CacheType, ConsoleContainer, LogType};
use fbcon::font::FontGlyph;
use fbcon::geometry::Dimensions;

// A 10-column by 4-row screen: 70 by 60 pixels with the 7x15 font at
// scale 1, three bytes per pixel.
fn small_console() -> (ConsoleContainer, Vec<u8>) {
    let dimensions = Dimensions::new(70usize, 60usize);
    let fonts: Vec<FontGlyph> = Vec::new();
    let console = ConsoleContainer::new(dimensions, 3, fonts);
    let buffer = vec![0u8; 70 * 60 * 3];
    (console, buffer)
}

fn replay(lines: &Vec<Vec<CacheType>>) -> String {
    let mut out = String::new();
    for (i, line) in lines.iter().enumerate() {
        if i > 0 {
            out.push('\n');
        }
        for cell in line.iter() {
            match cell {
                CacheType::Char(c) => out.push(*c),
                CacheType::AnsiEscape(raw) => out.extend(raw.iter()),
            }
        }
    }
    out
}

#[test]
fn cursor_stays_on_screen() {
    let (mut console, _buffer) = small_console();

    console.move_cursor(1000, 1000);
    assert_eq!(console.cursor_pos(), (9, 3));

    console.move_cursor(-100, -100);
    assert_eq!(console.cursor_pos(), (9, 3));

    console.move_cursor(-9, -3);
    assert_eq!(console.cursor_pos(), (0, 0));

    console.move_cursor(i32::MAX, i32::MIN);
    let (x, y) = console.cursor_pos();
    assert!(x < 10 && y < 4);
}

#[test]
fn small_negative_move_below_magnitude_is_a_no_op() {
    let (mut console, _buffer) = small_console();

    console.move_cursor(2, 0);
    assert_eq!(console.cursor_pos(), (2, 0));

    console.move_cursor(-5, 0);
    assert_eq!(console.cursor_pos(), (2, 0));
}

#[test]
fn scrollback_replays_exactly_what_was_emitted() {
    let (mut console, mut buffer) = small_console();

    let text = "AB\x1B[31mCD\n\n\nEF";
    console.process_string(text, &mut buffer);

    let lines = console.cached_lines();
    assert_eq!(replay(&lines), text);
    assert_eq!(lines.len(), 4);
}

#[test]
fn scrollback_evicts_oldest_at_capacity() {
    let dimensions = Dimensions::new(70usize, 60usize);
    let mut console = ConsoleContainer::with_cache_capacity(dimensions, 3, Vec::new(), 3);
    let mut buffer = vec![0u8; 70 * 60 * 3];

    console.process_string("a\nb\nc\nd", &mut buffer);

    let lines = console.cached_lines();
    assert_eq!(replay(&lines), "b\nc\nd");
}

#[test]
fn sgr_changes_the_text_style() {
    let (mut console, mut buffer) = small_console();

    console.process_string("\x1B[31m", &mut buffer);
    let red = fbcon::color::ColorName::Red.color();
    assert_eq!(console.text_style.foreground, red);

    console.process_string("\x1B[44m", &mut buffer);
    let blue = fbcon::color::ColorName::Blue.color();
    assert_eq!(console.text_style.background, blue);
}

#[test]
fn failed_escape_falls_back_to_literal_handling() {
    let (mut console, mut buffer) = small_console();

    console.process_string("\x1B[5Zx", &mut buffer);

    let lines = console.cached_lines();
    assert_eq!(lines.len(), 1);
    assert_eq!(lines[0].len(), 5);
    assert_eq!(lines[0][0], CacheType::Char('\x1B'));
    assert_eq!(lines[0][4], CacheType::Char('x'));
}

#[test]
fn backspace_pops_the_last_output_cell() {
    let (mut console, mut buffer) = small_console();

    console.process_string("ab\x08", &mut buffer);
    let lines = console.cached_lines();
    assert_eq!(replay(&lines), "a");

    console.process_string("\x08\x08", &mut buffer);
    let lines = console.cached_lines();
    assert_eq!(replay(&lines), "");
}

#[test]
fn input_backspace_never_underflows() {
    let (mut console, mut buffer) = small_console();
    console.log_type = LogType::UserInput;

    console.process_string("\x08\x08", &mut buffer);
    assert_eq!(console.cursor_pos().0, 0);
    assert_eq!(console.take_input(), Vec::<char>::new());

    console.process_string("hi", &mut buffer);
    assert_eq!(console.cursor_pos().0, 2);
    console.process_string("\x08\x08\x08", &mut buffer);
    assert_eq!(console.cursor_pos().0, 0);
    assert_eq!(console.take_input(), Vec::<char>::new());
}

#[test]
fn input_commit_replays_through_output() {
    let (mut console, mut buffer) = small_console();
    console.log_type = LogType::UserInput;

    console.process_string("ok\n", &mut buffer);

    assert_eq!(console.log_type, LogType::UserInput);
    assert_eq!(console.take_input(), Vec::<char>::new());
    let lines = console.cached_lines();
    assert_eq!(replay(&lines), "ok\n");
}

#[test]
fn input_characters_collect_in_the_pending_line() {
    let (mut console, mut buffer) = small_console();
    console.log_type = LogType::UserInput;

    console.process_string("abc", &mut buffer);
    assert_eq!(console.cursor_pos().0, 3);
    assert_eq!(console.take_input(), vec!['a', 'b', 'c']);
    assert_eq!(console.cursor_pos().0, 0);

    // Nothing reached the scrollback.
    assert_eq!(replay(&console.cached_lines()), "");
}

#[test]
fn input_cursor_stops_at_the_last_column() {
    let (mut console, mut buffer) = small_console();
    console.log_type = LogType::UserInput;

    console.process_string("0123456789abc", &mut buffer);
    assert_eq!(console.cursor_pos().0, 9);
    assert_eq!(console.take_input().len(), 13);
}

#[test]
fn clear_resets_scrollback_and_fills_background() {
    let (mut console, mut buffer) = small_console();
    console.process_string("abc\ndef", &mut buffer);

    console.clear(&mut buffer);

    assert_eq!(replay(&console.cached_lines()), "");
    let bg = fbcon::color::ColorName::DefaultBackground.color();
    let pattern = [bg.b, bg.g, bg.r];
    for (i, byte) in buffer.iter().enumerate() {
        assert_eq!(*byte, pattern[i % 3]);
    }
}

#[test]
fn draw_pixel_writes_bgr_and_clips() {
    let (console, mut buffer) = small_console();
    let color = fbcon::color::Color::new(1, 2, 3);

    console.draw_pixel(color, (0, 0), &mut buffer);
    assert_eq!(&buffer[0..3], &[3, 2, 1]);

    let before = buffer.clone();
    console.draw_pixel(color, (u16::MAX, u16::MAX), &mut buffer);
    assert_eq!(buffer, before);
}

#[test]
fn tick_keeps_console_state_and_buffer_size() {
    let (mut console, mut buffer) = small_console();
    console.process_string("xy", &mut buffer);
    let before = replay(&console.cached_lines());
    let len = buffer.len();

    for _ in 0..250 {
        console.tick(&mut buffer);
    }

    assert_eq!(replay(&console.cached_lines()), before);
    assert_eq!(buffer.len(), len);
}

#[test]
fn cursor_blink_flips_once_per_period() {
    let mut cursor = fbcon::cursor::ConsoleCursor::new();

    // Phase counter 0..99 reads as visible; 100..199 as hidden.
    cursor.update();
    assert!(cursor.is_displayed());
    for _ in 0..100 {
        cursor.update();
    }
    assert!(!cursor.is_displayed());
    for _ in 0..100 {
        cursor.update();
    }
    assert!(cursor.is_displayed());
}

#[test]
fn is_char_distinguishes_cells() {
    assert!(CacheType::Char('a').is_char());
    assert!(!CacheType::AnsiEscape(vec!['\x1B', '[', 'm']).is_char());
}

#[test]
fn cursor_motion_escapes_move_the_cursor() {
    let (mut console, mut buffer) = small_console();

    console.process_string("\x1B[2C\x1B[1B", &mut buffer);
    assert_eq!(console.cursor_pos(), (2, 1));

    console.process_string("\x1B[1D\x1B[1A", &mut buffer);
    assert_eq!(console.cursor_pos(), (1, 0));
}

#[test]
fn input_mode_escape_moves_cursor_without_recording() {
    let (mut console, mut buffer) = small_console();
    console.log_type = LogType::UserInput;

    console.process_string("ab\x1B[1D", &mut buffer);

    // The arrow moved the cursor back one cell, the pending input kept both
    // characters, and the scrollback saw nothing.
    assert_eq!(console.cursor_pos().0, 1);
    assert_eq!(console.take_input(), vec!['a', 'b']);
    assert_eq!(replay(&console.cached_lines()), "");
}

#[test]
fn four_byte_pixels_get_an_opaque_alpha() {
    let dimensions = Dimensions::new(70usize, 60usize);
    let console = ConsoleContainer::new(dimensions, 4, Vec::new());
    let mut buffer = vec![0u8; 70 * 60 * 4];

    let color = fbcon::color::Color::new(9, 8, 7);
    console.draw_pixel(color, (1, 0), &mut buffer);

    assert_eq!(&buffer[4..8], &[7, 8, 9, 0xFF]);
    assert_eq!(&buffer[0..4], &[0, 0, 0, 0]);
}

#[test]
fn scroll_copies_rows_upward_and_clears_the_input_rows() {
    let (mut console, mut buffer) = small_console();

    // Fill three of the four text rows; the next newline must scroll.
    console.process_string("a\nb\nc", &mut buffer);

    // One pixel row is 70 * 3 bytes; one text row is 15 pixel rows. Mark
    // the first byte of the second text row and scroll.
    let text_row = 15 * 70 * 3;
    buffer[text_row] = 77;
    console.process_string("\n", &mut buffer);

    // The marked byte moved up one text row (both rows hold one character
    // cell, so the pair copies the occupied width).
    assert_eq!(buffer[0], 77);

    // The bottom two text rows are background-filled for the input line.
    let bg = fbcon::color::ColorName::DefaultBackground.color();
    let pattern = [bg.b, bg.g, bg.r];
    for k in (buffer.len() - 2 * text_row)..buffer.len() {
        assert_eq!(buffer[k], pattern[k % 3]);
    }
}

#[test]
fn scroll_erases_the_wider_upper_row_tail() {
    let (mut console, mut buffer) = small_console();

    // The first row holds three character cells, the second only one: the
    // copy must background-fill the tail beyond the narrower row's width.
    console.process_string("abc\nd\ne", &mut buffer);

    // Mark a byte inside the upper row's tail (second cell's area), then a
    // byte in the copied first-cell area of the row below.
    let cell_bytes = 7 * 3;
    let text_row = 15 * 70 * 3;
    buffer[cell_bytes + 1] = 99;
    buffer[text_row] = 55;
    console.process_string("\n", &mut buffer);

    let bg = fbcon::color::ColorName::DefaultBackground.color();
    let pattern = [bg.b, bg.g, bg.r];
    // The tail byte was erased to background, not left stale.
    assert_eq!(buffer[cell_bytes + 1], pattern[(cell_bytes + 1) % 3]);
    // The narrow row's occupied bytes were copied up.
    assert_eq!(buffer[0], 55);
}
