use fbcon::ansi::{get_int, Ansi, AnsiEscape, AnsiEscapeCSI, GraphicsAttributes};
use fbcon::color::ColorName;
use fbcon::lookahead::SaveStateIterContainer;

fn parse(value: &str) -> Option<Ansi> {
    let mut container = SaveStateIterContainer::new(value.chars().collect());
    let mut iter = container.iter();

    Ansi::parse(&mut iter, &mut container)
}

#[test]
fn test_name() {
    assert_eq!(
        parse("\x1B[30m"),
        Some(
            AnsiEscapeCSI::SelectGraphicRendition(GraphicsAttributes {
                foreground_color: Some(ColorName::Black),
                background_color: None,
            })
            .into()
        )
    );
}

#[test]
fn sgr_sets_background_and_resets() {
    assert_eq!(
        parse("\x1B[41m"),
        Some(Ansi::Escape(AnsiEscape::ControlSequenceIntroducer(
            AnsiEscapeCSI::SelectGraphicRendition(GraphicsAttributes {
                foreground_color: None,
                background_color: Some(ColorName::Red),
            })
        )))
    );
    assert_eq!(
        parse("\x1B[39m"),
        Some(Ansi::Escape(AnsiEscape::ControlSequenceIntroducer(
            AnsiEscapeCSI::SelectGraphicRendition(GraphicsAttributes {
                foreground_color: Some(ColorName::DefaultForeground),
                background_color: None,
            })
        )))
    );
    assert_eq!(
        parse("\x1B[49m"),
        Some(Ansi::Escape(AnsiEscape::ControlSequenceIntroducer(
            AnsiEscapeCSI::SelectGraphicRendition(GraphicsAttributes {
                foreground_color: None,
                background_color: Some(ColorName::DefaultBackground),
            })
        )))
    );
}

#[test]
fn sgr_ignores_unknown_codes() {
    assert_eq!(
        parse("\x1B[7m"),
        Some(Ansi::Escape(AnsiEscape::ControlSequenceIntroducer(
            AnsiEscapeCSI::SelectGraphicRendition(GraphicsAttributes {
                foreground_color: None,
                background_color: None,
            })
        )))
    );
}

#[test]
fn cursor_commands_parse() {
    assert_eq!(
        parse("\x1B[3A"),
        Some(Ansi::Escape(AnsiEscape::ControlSequenceIntroducer(
            AnsiEscapeCSI::CursorUp(3)
        )))
    );
    assert_eq!(
        parse("\x1B[12B"),
        Some(Ansi::Escape(AnsiEscape::ControlSequenceIntroducer(
            AnsiEscapeCSI::CursorDown(12)
        )))
    );
    assert_eq!(
        parse("\x1B[C"),
        Some(Ansi::Escape(AnsiEscape::ControlSequenceIntroducer(
            AnsiEscapeCSI::CursorForward(1)
        )))
    );
    assert_eq!(
        parse("\x1B[0D"),
        Some(Ansi::Escape(AnsiEscape::ControlSequenceIntroducer(
            AnsiEscapeCSI::CursorBack(1)
        )))
    );
}

#[test]
fn unrecognized_terminator_yields_no_event() {
    assert_eq!(parse("\x1B[5Z"), None);
    assert_eq!(parse("\x1B[;31m"), None);
    assert_eq!(parse("\x1B]0;title"), None);
    assert_eq!(parse("\x1B["), None);
    assert_eq!(parse("\x1B"), None);
}

#[test]
fn non_escape_consumes_nothing() {
    let mut container = SaveStateIterContainer::new("hello".chars().collect());
    let mut iter = container.iter();

    let before = iter.index();
    let result = fbcon::ansi::try_parse_ansi(&mut iter, &mut container);

    assert!(result.is_none());
    assert_eq!(iter.index(), before);
    assert_eq!(iter.next(&mut container), Some('h'));
}

#[test]
fn failed_escape_leaves_checkpoint_unchanged() {
    let mut container = SaveStateIterContainer::new("\x1B[5Zrest".chars().collect());
    let mut iter = container.iter();

    let before = iter.index();
    let result = fbcon::ansi::try_parse_ansi(&mut iter, &mut container);

    assert_eq!(result, Some(None));
    assert_eq!(iter.index(), before);
    assert_eq!(iter.next(&mut container), Some('\x1B'));
}

#[test]
fn successful_escape_consumes_exactly_the_sequence() {
    let mut container = SaveStateIterContainer::new("\x1B[31mA".chars().collect());
    let mut iter = container.iter();

    let result = fbcon::ansi::try_parse_ansi(&mut iter, &mut container);
    assert!(matches!(result, Some(Some(_))));
    assert_eq!(iter.index(), 5);
    assert_eq!(iter.next(&mut container), Some('A'));
}

#[test]
fn get_int_reads_digits() {
    let mut container = SaveStateIterContainer::new("123m".chars().collect());
    let mut iter = container.iter();
    assert_eq!(get_int(&mut iter, &mut container), Some(123));
    assert_eq!(iter.next(&mut container), Some('m'));

    let mut container = SaveStateIterContainer::new("0m".chars().collect());
    let mut iter = container.iter();
    assert_eq!(get_int(&mut iter, &mut container), None);

    let mut container = SaveStateIterContainer::new("m".chars().collect());
    let mut iter = container.iter();
    assert_eq!(get_int(&mut iter, &mut container), None);

    let mut container = SaveStateIterContainer::new("42".chars().collect());
    let mut iter = container.iter();
    assert_eq!(get_int(&mut iter, &mut container), None);
}

#[test]
fn lookahead_rewinds_and_replays() {
    let mut container = SaveStateIterContainer::new("abc".chars().collect());
    let mut iter = container.iter();

    let checkpoint = iter.save_state();
    assert_eq!(iter.next(&mut container), Some('a'));
    assert_eq!(iter.next(&mut container), Some('b'));

    iter.load_state(checkpoint);
    assert_eq!(iter.peek(&container), Some('a'));
    assert_eq!(iter.next(&mut container), Some('a'));
    assert_eq!(iter.next(&mut container), Some('b'));
    assert_eq!(iter.next(&mut container), Some('c'));
    assert_eq!(iter.next(&mut container), None);
}

#[test]
fn save_and_finish_drops_committed_prefix() {
    let mut container = SaveStateIterContainer::new("abcd".chars().collect());
    let mut iter = container.iter();

    assert_eq!(iter.next(&mut container), Some('a'));
    assert_eq!(iter.next(&mut container), Some('b'));
    iter.save_and_finish(&mut container);

    let mut fresh = container.iter();
    assert_eq!(fresh.next(&mut container), Some('c'));
    assert_eq!(fresh.next(&mut container), Some('d'));
    assert_eq!(fresh.next(&mut container), None);
}
