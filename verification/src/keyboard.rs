//! The keyboard boundary: scancode tables and the stateful decoder that
//! turns raw scancode bytes into key-up and key-down events. An extended
//! prefix byte consumes one byte and emits nothing.

use vstd::prelude::*;

verus! {

/// Whether the previous byte announced the extended code space.
#[derive(Default, Debug, Clone, Copy, PartialEq, Eq, Structural)]
pub enum ScanCodeExtension {
    #[default]
    Default,
    Extended,
}

/// A physical key, or an unknown scancode carried through.
#[derive(Debug, Clone, Copy, PartialEq, Eq, Structural)]
pub enum KeyCode {
    Escape,
    One,
    Two,
    Three,
    Four,
    Five,
    Six,
    Seven,
    Eight,
    Nine,
    Zero,
    Minus,
    Equal,
    Backspace,
    LeftTab,
    Q,
    W,
    E,
    R,
    T,
    Y,
    U,
    I,
    O,
    P,
    LeftBracket,
    RightBracket,
    Enter,
    LeftControl,
    A,
    S,
    D,
    F,
    G,
    H,
    J,
    K,
    L,
    SemiColon,
    Apostrophe,
    Tilde,
    LeftShift,
    BackSlash,
    Z,
    X,
    C,
    V,
    B,
    N,
    M,
    Comma,
    Period,
    ForwardSlash,
    RightShift,
    UnknownUnknown,
    LeftCommand,
    Space,
    CapsLock,
    F1,
    F2,
    F3,
    F4,
    F5,
    F6,
    F7,
    F8,
    F9,
    F10,
    F11,
    F12,
    Extended(ExtendedKeyCode),
    Unknown(u8),
}

/// A physical key from the extended code space.
#[derive(Debug, Clone, Copy, PartialEq, Eq, Structural)]
pub enum ExtendedKeyCode {
    MultiMediaPreviousTrack,
    MultiMediaNextTrack,
    KeypadEnter,
    RightControl,
    Mute,
    MultiMediaCalculator,
    MultiMediaPlay,
    MultiMediaStop,
    MultiMediaVolumeDown,
    MultiMediaVolumeUp,
    MultiMediaWWWHome,
    KeypadForwardSlash,
    RightAlt,
    Home,
    CursorUp,
    PageUp,
    CursorLeft,
    CursorRight,
    End,
    CursorDown,
    PageDown,
    Insert,
    Delete,
    LeftGUI,
    RightGUI,
    Apps,
    Power,
    Sleep,
    Wake,
    MultiMediaWWWSearch,
    MultiMediaWWWFavorites,
    MultiMediaWWWRefresh,
    MultiMediaWWWStop,
    MultiMediaWWWForward,
    MultiMediaWWWBack,
    MultiMediaMyComputer,
    MultiMediaEmail,
    MultiMediaMediaSelect,
    Unknown(u8),
}

impl ExtendedKeyCode {
    /// The extended scancode table.
    pub open spec fn from_scan_code_spec(value: u8) -> ExtendedKeyCode {
        match value {
            16 => ExtendedKeyCode::MultiMediaPreviousTrack,
            25 => ExtendedKeyCode::MultiMediaNextTrack,
            28 => ExtendedKeyCode::KeypadEnter,
            29 => ExtendedKeyCode::RightControl,
            32 => ExtendedKeyCode::Mute,
            33 => ExtendedKeyCode::MultiMediaCalculator,
            34 => ExtendedKeyCode::MultiMediaPlay,
            36 => ExtendedKeyCode::MultiMediaStop,
            46 => ExtendedKeyCode::MultiMediaVolumeDown,
            48 => ExtendedKeyCode::MultiMediaVolumeUp,
            50 => ExtendedKeyCode::MultiMediaWWWHome,
            53 => ExtendedKeyCode::KeypadForwardSlash,
            56 => ExtendedKeyCode::RightAlt,
            71 => ExtendedKeyCode::Home,
            72 => ExtendedKeyCode::CursorUp,
            73 => ExtendedKeyCode::PageUp,
            75 => ExtendedKeyCode::CursorLeft,
            77 => ExtendedKeyCode::CursorRight,
            79 => ExtendedKeyCode::End,
            80 => ExtendedKeyCode::CursorDown,
            81 => ExtendedKeyCode::PageDown,
            82 => ExtendedKeyCode::Insert,
            83 => ExtendedKeyCode::Delete,
            91 => ExtendedKeyCode::LeftGUI,
            92 => ExtendedKeyCode::RightGUI,
            93 => ExtendedKeyCode::Apps,
            94 => ExtendedKeyCode::Power,
            95 => ExtendedKeyCode::Sleep,
            99 => ExtendedKeyCode::Wake,
            101 => ExtendedKeyCode::MultiMediaWWWSearch,
            102 => ExtendedKeyCode::MultiMediaWWWFavorites,
            103 => ExtendedKeyCode::MultiMediaWWWRefresh,
            104 => ExtendedKeyCode::MultiMediaWWWStop,
            105 => ExtendedKeyCode::MultiMediaWWWForward,
            106 => ExtendedKeyCode::MultiMediaWWWBack,
            107 => ExtendedKeyCode::MultiMediaMyComputer,
            108 => ExtendedKeyCode::MultiMediaEmail,
            109 => ExtendedKeyCode::MultiMediaMediaSelect,
            _ => ExtendedKeyCode::Unknown(value),
        }
    }

    pub fn from_scan_code(value: u8) -> (r: Self)
        ensures
            r == ExtendedKeyCode::from_scan_code_spec(value),
    {
        match value {
            16 => ExtendedKeyCode::MultiMediaPreviousTrack,
            25 => ExtendedKeyCode::MultiMediaNextTrack,
            28 => ExtendedKeyCode::KeypadEnter,
            29 => ExtendedKeyCode::RightControl,
            32 => ExtendedKeyCode::Mute,
            33 => ExtendedKeyCode::MultiMediaCalculator,
            34 => ExtendedKeyCode::MultiMediaPlay,
            36 => ExtendedKeyCode::MultiMediaStop,
            46 => ExtendedKeyCode::MultiMediaVolumeDown,
            48 => ExtendedKeyCode::MultiMediaVolumeUp,
            50 => ExtendedKeyCode::MultiMediaWWWHome,
            53 => ExtendedKeyCode::KeypadForwardSlash,
            56 => ExtendedKeyCode::RightAlt,
            71 => ExtendedKeyCode::Home,
            72 => ExtendedKeyCode::CursorUp,
            73 => ExtendedKeyCode::PageUp,
            75 => ExtendedKeyCode::CursorLeft,
            77 => ExtendedKeyCode::CursorRight,
            79 => ExtendedKeyCode::End,
            80 => ExtendedKeyCode::CursorDown,
            81 => ExtendedKeyCode::PageDown,
            82 => ExtendedKeyCode::Insert,
            83 => ExtendedKeyCode::Delete,
            91 => ExtendedKeyCode::LeftGUI,
            92 => ExtendedKeyCode::RightGUI,
            93 => ExtendedKeyCode::Apps,
            94 => ExtendedKeyCode::Power,
            95 => ExtendedKeyCode::Sleep,
            99 => ExtendedKeyCode::Wake,
            101 => ExtendedKeyCode::MultiMediaWWWSearch,
            102 => ExtendedKeyCode::MultiMediaWWWFavorites,
            103 => ExtendedKeyCode::MultiMediaWWWRefresh,
            104 => ExtendedKeyCode::MultiMediaWWWStop,
            105 => ExtendedKeyCode::MultiMediaWWWForward,
            106 => ExtendedKeyCode::MultiMediaWWWBack,
            107 => ExtendedKeyCode::MultiMediaMyComputer,
            108 => ExtendedKeyCode::MultiMediaEmail,
            109 => ExtendedKeyCode::MultiMediaMediaSelect,
            _ => ExtendedKeyCode::Unknown(value),
        }
    }
}

impl KeyCode {
    /// The base scancode table; an extended prefix defers to the extended
    /// table.
    pub open spec fn from_scan_code_spec(ext: ScanCodeExtension, value: u8) -> KeyCode {
        if ext is Extended {
            KeyCode::Extended(ExtendedKeyCode::from_scan_code_spec(value))
        } else {
            match value {
                1 => KeyCode::Escape,
                2 => KeyCode::One,
                3 => KeyCode::Two,
                4 => KeyCode::Three,
                5 => KeyCode::Four,
                6 => KeyCode::Five,
                7 => KeyCode::Six,
                8 => KeyCode::Seven,
                9 => KeyCode::Eight,
                10 => KeyCode::Nine,
                11 => KeyCode::Zero,
                12 => KeyCode::Minus,
                13 => KeyCode::Equal,
                14 => KeyCode::Backspace,
                15 => KeyCode::LeftTab,
                16 => KeyCode::Q,
                17 => KeyCode::W,
                18 => KeyCode::E,
                19 => KeyCode::R,
                20 => KeyCode::T,
                21 => KeyCode::Y,
                22 => KeyCode::U,
                23 => KeyCode::I,
                24 => KeyCode::O,
                25 => KeyCode::P,
                26 => KeyCode::LeftBracket,
                27 => KeyCode::RightBracket,
                28 => KeyCode::Enter,
                29 => KeyCode::LeftControl,
                30 => KeyCode::A,
                31 => KeyCode::S,
                32 => KeyCode::D,
                33 => KeyCode::F,
                34 => KeyCode::G,
                35 => KeyCode::H,
                36 => KeyCode::J,
                37 => KeyCode::K,
                38 => KeyCode::L,
                39 => KeyCode::SemiColon,
                40 => KeyCode::Apostrophe,
                41 => KeyCode::Tilde,
                42 => KeyCode::LeftShift,
                43 => KeyCode::BackSlash,
                44 => KeyCode::Z,
                45 => KeyCode::X,
                46 => KeyCode::C,
                47 => KeyCode::V,
                48 => KeyCode::B,
                49 => KeyCode::N,
                50 => KeyCode::M,
                51 => KeyCode::Comma,
                52 => KeyCode::Period,
                53 => KeyCode::ForwardSlash,
                54 => KeyCode::RightShift,
                55 => KeyCode::UnknownUnknown,
                56 => KeyCode::LeftCommand,
                57 => KeyCode::Space,
                58 => KeyCode::CapsLock,
                59 => KeyCode::F1,
                60 => KeyCode::F2,
                61 => KeyCode::F3,
                62 => KeyCode::F4,
                63 => KeyCode::F5,
                64 => KeyCode::F6,
                65 => KeyCode::F7,
                66 => KeyCode::F8,
                67 => KeyCode::F9,
                68 => KeyCode::F10,
                133 => KeyCode::F11,
                134 => KeyCode::F12,
                _ => KeyCode::Unknown(value),
            }
        }
    }

    pub fn from_scan_code(ext: ScanCodeExtension, value: u8) -> (r: Self)
        ensures
            r == KeyCode::from_scan_code_spec(ext, value),
    {
        match ext {
            ScanCodeExtension::Extended => {
                return KeyCode::Extended(ExtendedKeyCode::from_scan_code(value));
            },
            ScanCodeExtension::Default => {},
        }

        match value {
            1 => KeyCode::Escape,
            2 => KeyCode::One,
            3 => KeyCode::Two,
            4 => KeyCode::Three,
            5 => KeyCode::Four,
            6 => KeyCode::Five,
            7 => KeyCode::Six,
            8 => KeyCode::Seven,
            9 => KeyCode::Eight,
            10 => KeyCode::Nine,
            11 => KeyCode::Zero,
            12 => KeyCode::Minus,
            13 => KeyCode::Equal,
            14 => KeyCode::Backspace,
            15 => KeyCode::LeftTab,
            16 => KeyCode::Q,
            17 => KeyCode::W,
            18 => KeyCode::E,
            19 => KeyCode::R,
            20 => KeyCode::T,
            21 => KeyCode::Y,
            22 => KeyCode::U,
            23 => KeyCode::I,
            24 => KeyCode::O,
            25 => KeyCode::P,
            26 => KeyCode::LeftBracket,
            27 => KeyCode::RightBracket,
            28 => KeyCode::Enter,
            29 => KeyCode::LeftControl,
            30 => KeyCode::A,
            31 => KeyCode::S,
            32 => KeyCode::D,
            33 => KeyCode::F,
            34 => KeyCode::G,
            35 => KeyCode::H,
            36 => KeyCode::J,
            37 => KeyCode::K,
            38 => KeyCode::L,
            39 => KeyCode::SemiColon,
            40 => KeyCode::Apostrophe,
            41 => KeyCode::Tilde,
            42 => KeyCode::LeftShift,
            43 => KeyCode::BackSlash,
            44 => KeyCode::Z,
            45 => KeyCode::X,
            46 => KeyCode::C,
            47 => KeyCode::V,
            48 => KeyCode::B,
            49 => KeyCode::N,
            50 => KeyCode::M,
            51 => KeyCode::Comma,
            52 => KeyCode::Period,
            53 => KeyCode::ForwardSlash,
            54 => KeyCode::RightShift,
            55 => KeyCode::UnknownUnknown,
            56 => KeyCode::LeftCommand,
            57 => KeyCode::Space,
            58 => KeyCode::CapsLock,
            59 => KeyCode::F1,
            60 => KeyCode::F2,
            61 => KeyCode::F3,
            62 => KeyCode::F4,
            63 => KeyCode::F5,
            64 => KeyCode::F6,
            65 => KeyCode::F7,
            66 => KeyCode::F8,
            67 => KeyCode::F9,
            68 => KeyCode::F10,
            133 => KeyCode::F11,
            134 => KeyCode::F12,
            _ => KeyCode::Unknown(value),
        }
    }

    /// The printable byte a key produces, if any; `use_alternative` selects
    /// the shifted form. Unknown keys map to byte zero, and keys without a
    /// printable form map to nothing.
    pub open spec fn to_byte_unicode_spec(self, use_alternative: bool) -> Option<u8> {
        match self {
            KeyCode::Unknown(_) => Some(0u8),
            KeyCode::Extended(ExtendedKeyCode::Unknown(_)) => Some(0u8),
            KeyCode::Extended(_) => None,
            KeyCode::Escape => None,
            KeyCode::LeftControl => None,
            KeyCode::RightShift => None,
            KeyCode::UnknownUnknown => None,
            KeyCode::LeftCommand => None,
            KeyCode::LeftTab => None,
            KeyCode::LeftShift => None,
            KeyCode::CapsLock => None,
            KeyCode::F1 => None,
            KeyCode::F2 => None,
            KeyCode::F3 => None,
            KeyCode::F4 => None,
            KeyCode::F5 => None,
            KeyCode::F6 => None,
            KeyCode::F7 => None,
            KeyCode::F8 => None,
            KeyCode::F9 => None,
            KeyCode::F10 => None,
            KeyCode::F11 => None,
            KeyCode::F12 => None,
            KeyCode::Backspace => Some(8u8),
            KeyCode::Enter => Some(10u8),
            KeyCode::Space => Some(32u8),
            KeyCode::Apostrophe => Some(if use_alternative { 34u8 } else { 39u8 }),
            KeyCode::Comma => Some(if use_alternative { 60u8 } else { 44u8 }),
            KeyCode::Minus => Some(if use_alternative { 95u8 } else { 45u8 }),
            KeyCode::Period => Some(if use_alternative { 62u8 } else { 46u8 }),
            KeyCode::ForwardSlash => Some(if use_alternative { 63u8 } else { 47u8 }),
            KeyCode::Zero => Some(48u8),
            KeyCode::One => Some(49u8),
            KeyCode::Two => Some(50u8),
            KeyCode::Three => Some(51u8),
            KeyCode::Four => Some(52u8),
            KeyCode::Five => Some(53u8),
            KeyCode::Six => Some(54u8),
            KeyCode::Seven => Some(55u8),
            KeyCode::Eight => Some(56u8),
            KeyCode::Nine => Some(57u8),
            KeyCode::SemiColon => Some(if use_alternative { 58u8 } else { 59u8 }),
            KeyCode::Equal => Some(if use_alternative { 43u8 } else { 61u8 }),
            KeyCode::LeftBracket => Some(if use_alternative { 123u8 } else { 91u8 }),
            KeyCode::BackSlash => Some(if use_alternative { 124u8 } else { 92u8 }),
            KeyCode::RightBracket => Some(if use_alternative { 125u8 } else { 93u8 }),
            KeyCode::Tilde => Some(if use_alternative { 126u8 } else { 96u8 }),
            KeyCode::A => Some(if use_alternative { 65u8 } else { 97u8 }),
            KeyCode::B => Some(if use_alternative { 66u8 } else { 98u8 }),
            KeyCode::C => Some(if use_alternative { 67u8 } else { 99u8 }),
            KeyCode::D => Some(if use_alternative { 68u8 } else { 100u8 }),
            KeyCode::E => Some(if use_alternative { 69u8 } else { 101u8 }),
            KeyCode::F => Some(if use_alternative { 70u8 } else { 102u8 }),
            KeyCode::G => Some(if use_alternative { 71u8 } else { 103u8 }),
            KeyCode::H => Some(if use_alternative { 72u8 } else { 104u8 }),
            KeyCode::I => Some(if use_alternative { 73u8 } else { 105u8 }),
            KeyCode::J => Some(if use_alternative { 74u8 } else { 106u8 }),
            KeyCode::K => Some(if use_alternative { 75u8 } else { 107u8 }),
            KeyCode::L => Some(if use_alternative { 76u8 } else { 108u8 }),
            KeyCode::M => Some(if use_alternative { 77u8 } else { 109u8 }),
            KeyCode::N => Some(if use_alternative { 78u8 } else { 110u8 }),
            KeyCode::O => Some(if use_alternative { 79u8 } else { 111u8 }),
            KeyCode::P => Some(if use_alternative { 80u8 } else { 112u8 }),
            KeyCode::Q => Some(if use_alternative { 81u8 } else { 113u8 }),
            KeyCode::R => Some(if use_alternative { 82u8 } else { 114u8 }),
            KeyCode::S => Some(if use_alternative { 83u8 } else { 115u8 }),
            KeyCode::T => Some(if use_alternative { 84u8 } else { 116u8 }),
            KeyCode::U => Some(if use_alternative { 85u8 } else { 117u8 }),
            KeyCode::V => Some(if use_alternative { 86u8 } else { 118u8 }),
            KeyCode::W => Some(if use_alternative { 87u8 } else { 119u8 }),
            KeyCode::X => Some(if use_alternative { 88u8 } else { 120u8 }),
            KeyCode::Y => Some(if use_alternative { 89u8 } else { 121u8 }),
            KeyCode::Z => Some(if use_alternative { 90u8 } else { 122u8 }),
        }
    }

    pub fn to_byte_unicode(self, use_alternative: bool) -> (r: Option<u8>)
        ensures
            r == self.to_byte_unicode_spec(use_alternative),
    {
        match self {
            KeyCode::Unknown(_) => Some(0u8),
            KeyCode::Extended(ExtendedKeyCode::Unknown(_)) => Some(0u8),
            KeyCode::Extended(_) => None,
            KeyCode::Escape => None,
            KeyCode::LeftControl => None,
            KeyCode::RightShift => None,
            KeyCode::UnknownUnknown => None,
            KeyCode::LeftCommand => None,
            KeyCode::LeftTab => None,
            KeyCode::LeftShift => None,
            KeyCode::CapsLock => None,
            KeyCode::F1 => None,
            KeyCode::F2 => None,
            KeyCode::F3 => None,
            KeyCode::F4 => None,
            KeyCode::F5 => None,
            KeyCode::F6 => None,
            KeyCode::F7 => None,
            KeyCode::F8 => None,
            KeyCode::F9 => None,
            KeyCode::F10 => None,
            KeyCode::F11 => None,
            KeyCode::F12 => None,
            KeyCode::Backspace => Some(8u8),
            KeyCode::Enter => Some(10u8),
            KeyCode::Space => Some(32u8),
            KeyCode::Apostrophe => Some(if use_alternative { 34u8 } else { 39u8 }),
            KeyCode::Comma => Some(if use_alternative { 60u8 } else { 44u8 }),
            KeyCode::Minus => Some(if use_alternative { 95u8 } else { 45u8 }),
            KeyCode::Period => Some(if use_alternative { 62u8 } else { 46u8 }),
            KeyCode::ForwardSlash => Some(if use_alternative { 63u8 } else { 47u8 }),
            KeyCode::Zero => Some(48u8),
            KeyCode::One => Some(49u8),
            KeyCode::Two => Some(50u8),
            KeyCode::Three => Some(51u8),
            KeyCode::Four => Some(52u8),
            KeyCode::Five => Some(53u8),
            KeyCode::Six => Some(54u8),
            KeyCode::Seven => Some(55u8),
            KeyCode::Eight => Some(56u8),
            KeyCode::Nine => Some(57u8),
            KeyCode::SemiColon => Some(if use_alternative { 58u8 } else { 59u8 }),
            KeyCode::Equal => Some(if use_alternative { 43u8 } else { 61u8 }),
            KeyCode::LeftBracket => Some(if use_alternative { 123u8 } else { 91u8 }),
            KeyCode::BackSlash => Some(if use_alternative { 124u8 } else { 92u8 }),
            KeyCode::RightBracket => Some(if use_alternative { 125u8 } else { 93u8 }),
            KeyCode::Tilde => Some(if use_alternative { 126u8 } else { 96u8 }),
            KeyCode::A => Some(if use_alternative { 65u8 } else { 97u8 }),
            KeyCode::B => Some(if use_alternative { 66u8 } else { 98u8 }),
            KeyCode::C => Some(if use_alternative { 67u8 } else { 99u8 }),
            KeyCode::D => Some(if use_alternative { 68u8 } else { 100u8 }),
            KeyCode::E => Some(if use_alternative { 69u8 } else { 101u8 }),
            KeyCode::F => Some(if use_alternative { 70u8 } else { 102u8 }),
            KeyCode::G => Some(if use_alternative { 71u8 } else { 103u8 }),
            KeyCode::H => Some(if use_alternative { 72u8 } else { 104u8 }),
            KeyCode::I => Some(if use_alternative { 73u8 } else { 105u8 }),
            KeyCode::J => Some(if use_alternative { 74u8 } else { 106u8 }),
            KeyCode::K => Some(if use_alternative { 75u8 } else { 107u8 }),
            KeyCode::L => Some(if use_alternative { 76u8 } else { 108u8 }),
            KeyCode::M => Some(if use_alternative { 77u8 } else { 109u8 }),
            KeyCode::N => Some(if use_alternative { 78u8 } else { 110u8 }),
            KeyCode::O => Some(if use_alternative { 79u8 } else { 111u8 }),
            KeyCode::P => Some(if use_alternative { 80u8 } else { 112u8 }),
            KeyCode::Q => Some(if use_alternative { 81u8 } else { 113u8 }),
            KeyCode::R => Some(if use_alternative { 82u8 } else { 114u8 }),
            KeyCode::S => Some(if use_alternative { 83u8 } else { 115u8 }),
            KeyCode::T => Some(if use_alternative { 84u8 } else { 116u8 }),
            KeyCode::U => Some(if use_alternative { 85u8 } else { 117u8 }),
            KeyCode::V => Some(if use_alternative { 86u8 } else { 118u8 }),
            KeyCode::W => Some(if use_alternative { 87u8 } else { 119u8 }),
            KeyCode::X => Some(if use_alternative { 88u8 } else { 120u8 }),
            KeyCode::Y => Some(if use_alternative { 89u8 } else { 121u8 }),
            KeyCode::Z => Some(if use_alternative { 90u8 } else { 122u8 }),
        }
    }
}

/// One decoded key transition, with the modifier state at that moment.
#[derive(Debug, Clone, Copy, PartialEq, Eq, Structural)]
pub struct KeyInfo {
    pub is_caps_lock_enabled: bool,
    pub is_shift_down: bool,
    pub is_ctrl_down: bool,
    pub is_alt_down: bool,

    pub is_held: bool,
    pub char: char,
    pub code: KeyCode,
}

/// A key went up or down.
#[derive(Debug, Clone, Copy, PartialEq, Eq, Structural)]
pub enum KeyEvent {
    Up(KeyInfo),
    Down(KeyInfo),
}

/// The decoder's state as contracts see it.
#[verifier::ext_equal]
pub struct KeyboardModel {
    pub keys: Set<KeyCode>,
    pub caps: bool,
    pub shift: bool,
    pub ctrl: bool,
    pub alt: bool,
    pub ext: ScanCodeExtension,
}

/// The byte that announces the extended code space.
pub const START_EXPANDED_CODE_SPACE: u8 = 0xE0;

/// What one scancode byte does to the decoder: the next state and the event
/// it emits, if any. An extended prefix only flips the extension flag; a
/// byte above 128 releases a key; anything else presses one.
pub open spec fn scan_code_step(m: KeyboardModel, value: u8) -> (KeyboardModel, Option<KeyEvent>) {
    if value == START_EXPANDED_CODE_SPACE {
        (KeyboardModel { ext: ScanCodeExtension::Extended, ..m }, None)
    } else if value > 128 {
        let key_code = KeyCode::from_scan_code_spec(m.ext, (value - 128) as u8);
        let shift = if key_code == KeyCode::LeftShift || key_code == KeyCode::RightShift {
            false
        } else {
            m.shift
        };
        let ctrl = if key_code == KeyCode::LeftControl {
            false
        } else {
            m.ctrl
        };
        let next = KeyboardModel { keys: m.keys.remove(key_code), shift, ctrl, ..m };
        match key_code.to_byte_unicode_spec(m.caps != shift) {
            Some(b) => (
                next,
                Some(
                    KeyEvent::Up(
                        KeyInfo {
                            is_caps_lock_enabled: m.caps,
                            is_shift_down: shift,
                            is_ctrl_down: ctrl,
                            is_alt_down: m.alt,
                            is_held: false,
                            char: b as char,
                            code: key_code,
                        },
                    ),
                ),
            ),
            None => (next, None),
        }
    } else {
        let key_code = KeyCode::from_scan_code_spec(m.ext, value);
        let is_held = m.keys.contains(key_code);
        let shift = if key_code == KeyCode::LeftShift || key_code == KeyCode::RightShift {
            true
        } else {
            m.shift
        };
        let ctrl = if key_code == KeyCode::LeftControl {
            true
        } else {
            m.ctrl
        };
        let caps = if key_code == KeyCode::CapsLock && !is_held {
            !m.caps
        } else {
            m.caps
        };
        let next = KeyboardModel {
            keys: m.keys.insert(key_code),
            caps,
            shift,
            ctrl,
            alt: m.alt,
            ext: ScanCodeExtension::Default,
        };
        match key_code.to_byte_unicode_spec(caps != shift) {
            Some(b) => (
                next,
                Some(
                    KeyEvent::Down(
                        KeyInfo {
                            is_caps_lock_enabled: caps,
                            is_shift_down: shift,
                            is_ctrl_down: ctrl,
                            is_alt_down: m.alt,
                            is_held,
                            char: b as char,
                            code: key_code,
                        },
                    ),
                ),
            ),
            None => (next, None),
        }
    }
}

/// The decoder's state: which keys are held, the modifier flags, and whether
/// an extended prefix was just seen.
pub struct KeyboardState {
    keys_down: Vec<KeyCode>,
    is_caps_lock_enabled: bool,
    is_shift_down: bool,
    is_ctrl_down: bool,
    is_alt_down: bool,
    ext: ScanCodeExtension,
}

impl KeyboardState {
    pub closed spec fn model(&self) -> KeyboardModel {
        KeyboardModel {
            keys: self.keys_down@.to_set(),
            caps: self.is_caps_lock_enabled,
            shift: self.is_shift_down,
            ctrl: self.is_ctrl_down,
            alt: self.is_alt_down,
            ext: self.ext,
        }
    }

    /// The held-key list never repeats a key.
    pub closed spec fn wf(&self) -> bool {
        forall|i: int, j: int|
            0 <= i < j < self.keys_down@.len() ==> self.keys_down@[i] != self.keys_down@[j]
    }

    pub fn new() -> (r: Self)
        ensures
            r.wf(),
            r.model() == (KeyboardModel {
                keys: Set::<KeyCode>::empty(),
                caps: false,
                shift: false,
                ctrl: false,
                alt: false,
                ext: ScanCodeExtension::Default,
            }),
    {
        let r = KeyboardState {
            keys_down: Vec::new(),
            is_caps_lock_enabled: false,
            is_shift_down: false,
            is_ctrl_down: false,
            is_alt_down: false,
            ext: ScanCodeExtension::Default,
        };
        proof {
            assert(r.keys_down@.to_set() =~= Set::<KeyCode>::empty());
        }
        r
    }

    fn keys_contains(&self, code: KeyCode) -> (r: bool)
        ensures
            r == self.model().keys.contains(code),
    {
        let mut i: usize = 0;

        while i < self.keys_down.len()
            invariant
                0 <= i <= self.keys_down@.len(),
                forall|j: int| 0 <= j < i ==> self.keys_down@[j] != code,
            decreases self.keys_down@.len() - i,
        {
            if self.keys_down[i] == code {
                proof {
                    assert(self.keys_down@.contains(code));
                }
                return true;
            }
            i = i + 1;
        }

        proof {
            assert(!self.keys_down@.contains(code));
        }
        false
    }

    /// Adds a key to the held set; reports whether it was already held.
    fn keys_insert(&mut self, code: KeyCode) -> (held: bool)
        requires
            old(self).wf(),
        ensures
            final(self).wf(),
            held == old(self).model().keys.contains(code),
            final(self).model().keys =~= old(self).model().keys.insert(code),
            final(self).is_caps_lock_enabled == old(self).is_caps_lock_enabled,
            final(self).is_shift_down == old(self).is_shift_down,
            final(self).is_ctrl_down == old(self).is_ctrl_down,
            final(self).is_alt_down == old(self).is_alt_down,
            final(self).ext == old(self).ext,
    {
        let held = self.keys_contains(code);

        if !held {
            self.keys_down.push(code);
            proof {
                assert forall|k: KeyCode|
                    self.keys_down@.contains(k) <==> (old(self).keys_down@.contains(k) || k
                        == code) by {
                    if self.keys_down@.contains(k) {
                        let i = choose|i: int|
                            0 <= i < self.keys_down@.len() && self.keys_down@[i]
                                == k;
                        if i < old(self).keys_down@.len() {
                            assert(old(self).keys_down@[i] == k);
                            assert(old(self).keys_down@.contains(k));
                        }
                    }
                    if old(self).keys_down@.contains(k) {
                        let i = choose|i: int|
                            0 <= i < old(self).keys_down@.len() && old(self).keys_down@[i] == k;
                        assert(self.keys_down@[i] == k);
                        assert(self.keys_down@.contains(k));
                    }
                    if k == code {
                        assert(self.keys_down@.last() == code);
                        assert(self.keys_down@.contains(k));
                    }
                }
                assert(self.model().keys =~= old(self).model().keys.insert(code));
            }
        } else {
            proof {
                assert(self.model().keys =~= old(self).model().keys.insert(code));
            }
        }

        held
    }

    /// Removes a key from the held set, if it was there.
    fn keys_remove(&mut self, code: KeyCode)
        requires
            old(self).wf(),
        ensures
            final(self).wf(),
            final(self).model().keys =~= old(self).model().keys.remove(code),
            final(self).is_caps_lock_enabled == old(self).is_caps_lock_enabled,
            final(self).is_shift_down == old(self).is_shift_down,
            final(self).is_ctrl_down == old(self).is_ctrl_down,
            final(self).is_alt_down == old(self).is_alt_down,
            final(self).ext == old(self).ext,
    {
        let mut i: usize = 0;

        while i < self.keys_down.len()
            invariant
                old(self).wf(),
                self == old(self),
                0 <= i <= self.keys_down@.len(),
                forall|j: int| 0 <= j < i ==> self.keys_down@[j] != code,
            decreases self.keys_down@.len() - i,
        {
            if self.keys_down[i] == code {
                let ghost before = self.keys_down@;
                self.keys_down.remove(i);
                proof {
                    assert forall|k: KeyCode|
                        self.keys_down@.contains(k) <==> (before.contains(k) && k != code) by {
                        if self.keys_down@.contains(k) {
                            let j = choose|j: int|
                                0 <= j < self.keys_down@.len() && self.keys_down@[j] == k;
                            if j < i {
                                assert(before[j] == k);
                            } else {
                                assert(before[j + 1] == k);
                            }
                            assert(before.contains(k));
                            assert(k != code);
                        }
                        if before.contains(k) && k != code {
                            let j = choose|j: int| 0 <= j < before.len() && before[j] == k;
                            if j < i {
                                assert(self.keys_down@[j] == k);
                            } else {
                                assert(self.keys_down@[j - 1] == k);
                            }
                            assert(self.keys_down@.contains(k));
                        }
                    }
                    assert(self.model().keys =~= old(self).model().keys.remove(code));
                }
                return;
            }
            i = i + 1;
        }

        proof {
            assert(!self.keys_down@.contains(code));
            assert(self.model().keys =~= old(self).model().keys.remove(code));
        }
    }
}

/// Feeds one raw scancode byte to the decoder. Exactly the transition that
/// `scan_code_step` describes: zero or one event per byte, with an extended
/// prefix consuming its byte silently.
pub fn handle_next_scan_code(state: &mut KeyboardState, value: u8) -> (r: Option<KeyEvent>)
    requires
        old(state).wf(),
    ensures
        final(state).wf(),
        final(state).model() == scan_code_step(old(state).model(), value).0,
        r == scan_code_step(old(state).model(), value).1,
{
    if value == START_EXPANDED_CODE_SPACE {
        state.ext = ScanCodeExtension::Extended;
        None
    } else if value > 128 {
        let key_code = KeyCode::from_scan_code(state.ext, value - 128);

        state.keys_remove(key_code);

        if key_code == KeyCode::LeftShift || key_code == KeyCode::RightShift {
            state.is_shift_down = false;
        } else if key_code == KeyCode::LeftControl {
            state.is_ctrl_down = false;
        }

        let use_alternative = state.is_caps_lock_enabled != state.is_shift_down;

        match key_code.to_byte_unicode(use_alternative) {
            Some(b) => Some(
                KeyEvent::Up(
                    KeyInfo {
                        is_caps_lock_enabled: state.is_caps_lock_enabled,
                        is_shift_down: state.is_shift_down,
                        is_ctrl_down: state.is_ctrl_down,
                        is_alt_down: state.is_alt_down,
                        is_held: false,
                        char: b as char,
                        code: key_code,
                    },
                ),
            ),
            None => None,
        }
    } else {
        let key_code = KeyCode::from_scan_code(state.ext, value);

        let is_held = state.keys_insert(key_code);

        if key_code == KeyCode::LeftShift || key_code == KeyCode::RightShift {
            state.is_shift_down = true;
        } else if key_code == KeyCode::LeftControl {
            state.is_ctrl_down = true;
        } else if key_code == KeyCode::CapsLock {
            if !is_held {
                state.is_caps_lock_enabled = !state.is_caps_lock_enabled;
            }
        }

        state.ext = ScanCodeExtension::Default;

        let use_alternative = state.is_caps_lock_enabled != state.is_shift_down;

        match key_code.to_byte_unicode(use_alternative) {
            Some(b) => Some(
                KeyEvent::Down(
                    KeyInfo {
                        is_caps_lock_enabled: state.is_caps_lock_enabled,
                        is_shift_down: state.is_shift_down,
                        is_ctrl_down: state.is_ctrl_down,
                        is_alt_down: state.is_alt_down,
                        is_held,
                        char: b as char,
                        code: key_code,
                    },
                ),
            ),
            None => None,
        }
    }
}

} // verus!
