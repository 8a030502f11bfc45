use fbcon::keyboard::{
    handle_next_scan_code, ExtendedKeyCode, KeyCode, KeyEvent, KeyboardState, ScanCodeExtension,
};

#[test]
fn plain_key_press_and_release() {
    let mut state = KeyboardState::new();

    match handle_next_scan_code(&mut state, 30) {
        Some(KeyEvent::Down(info)) => {
            assert_eq!(info.code, KeyCode::A);
            assert_eq!(info.char, 'a');
            assert!(!info.is_held);
            assert!(!info.is_shift_down);
        }
        other => panic!("expected a key-down event, got {other:?}"),
    }

    match handle_next_scan_code(&mut state, 30 + 128) {
        Some(KeyEvent::Up(info)) => {
            assert_eq!(info.code, KeyCode::A);
            assert!(!info.is_held);
        }
        other => panic!("expected a key-up event, got {other:?}"),
    }
}

#[test]
fn shift_selects_the_alternative_form() {
    let mut state = KeyboardState::new();

    assert!(handle_next_scan_code(&mut state, 42).is_none()); // left shift down
    match handle_next_scan_code(&mut state, 30) {
        Some(KeyEvent::Down(info)) => {
            assert_eq!(info.char, 'A');
            assert!(info.is_shift_down);
        }
        other => panic!("expected a key-down event, got {other:?}"),
    }
}

#[test]
fn caps_lock_toggles_once_per_press() {
    let mut state = KeyboardState::new();

    assert!(handle_next_scan_code(&mut state, 58).is_none()); // caps lock down
    match handle_next_scan_code(&mut state, 16) {
        Some(KeyEvent::Down(info)) => assert_eq!(info.char, 'Q'),
        other => panic!("expected a key-down event, got {other:?}"),
    }

    // Held caps lock does not toggle again.
    assert!(handle_next_scan_code(&mut state, 58).is_none());
    match handle_next_scan_code(&mut state, 16) {
        Some(KeyEvent::Down(info)) => {
            assert_eq!(info.char, 'Q');
            assert!(info.is_held);
        }
        other => panic!("expected a key-down event, got {other:?}"),
    }
}

#[test]
fn extended_prefix_consumes_one_byte_silently() {
    let mut state = KeyboardState::new();

    assert!(handle_next_scan_code(&mut state, 0xE0).is_none());

    // A cursor key has no printable byte, so the press stays silent, but
    // the extended table decoded it.
    assert!(handle_next_scan_code(&mut state, 0x48).is_none());

    // An unknown extended key does produce an event, carrying byte zero.
    assert!(handle_next_scan_code(&mut state, 0xE0).is_none());
    match handle_next_scan_code(&mut state, 0x42) {
        Some(KeyEvent::Down(info)) => {
            assert_eq!(info.code, KeyCode::Extended(ExtendedKeyCode::Unknown(0x42)));
            assert_eq!(info.char, '\0');
        }
        other => panic!("expected a key-down event, got {other:?}"),
    }
}

#[test]
fn held_keys_are_reported_held() {
    let mut state = KeyboardState::new();

    assert!(matches!(
        handle_next_scan_code(&mut state, 57),
        Some(KeyEvent::Down(info)) if !info.is_held
    ));
    assert!(matches!(
        handle_next_scan_code(&mut state, 57),
        Some(KeyEvent::Down(info)) if info.is_held
    ));
}

#[test]
fn scan_code_tables() {
    assert_eq!(KeyCode::from_scan_code(ScanCodeExtension::Default, 1), KeyCode::Escape);
    assert_eq!(KeyCode::from_scan_code(ScanCodeExtension::Default, 57), KeyCode::Space);
    assert_eq!(KeyCode::from_scan_code(ScanCodeExtension::Default, 200), KeyCode::Unknown(200));
    assert_eq!(
        KeyCode::from_scan_code(ScanCodeExtension::Extended, 0x50),
        KeyCode::Extended(ExtendedKeyCode::CursorDown)
    );
    assert_eq!(ExtendedKeyCode::from_scan_code(0x53), ExtendedKeyCode::Delete);
    assert_eq!(ExtendedKeyCode::from_scan_code(0x42), ExtendedKeyCode::Unknown(0x42));
}

#[test]
fn printable_bytes() {
    assert_eq!(KeyCode::Space.to_byte_unicode(false), Some(32));
    assert_eq!(KeyCode::Enter.to_byte_unicode(true), Some(10));
    assert_eq!(KeyCode::Nine.to_byte_unicode(true), Some(57));
    assert_eq!(KeyCode::Comma.to_byte_unicode(true), Some(60));
    assert_eq!(KeyCode::F1.to_byte_unicode(false), None);
    assert_eq!(KeyCode::Escape.to_byte_unicode(false), None);
    assert_eq!(KeyCode::Unknown(77).to_byte_unicode(false), Some(0));
}

#[test]
fn releasing_shift_restores_the_plain_form() {
    let mut state = KeyboardState::new();

    handle_next_scan_code(&mut state, 42);
    handle_next_scan_code(&mut state, 42 + 128);
    match handle_next_scan_code(&mut state, 30) {
        Some(KeyEvent::Down(info)) => assert_eq!(info.char, 'a'),
        other => panic!("expected a key-down event, got {other:?}"),
    }
}
