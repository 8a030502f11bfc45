//! The console palette: RGB colors, the closed set of color names the SGR
//! commands can select, and the escape strings that serialize a selection.

use vstd::prelude::*;

verus! {

/// One RGB color.
#[derive(Debug, Clone, Copy, PartialEq, Eq, Structural)]
pub struct Color {
    pub r: u8,
    pub g: u8,
    pub b: u8,
}

/// True of characters the hex color notation accepts.
pub open spec fn is_hex_digit(c: char) -> bool {
    ('0' <= c && c <= '9') || ('a' <= c && c <= 'f') || ('A' <= c && c <= 'F')
}

/// The value of one hex digit.
pub open spec fn hex_digit_value(c: char) -> int {
    if '0' <= c && c <= '9' {
        c as int - '0' as int
    } else if 'a' <= c && c <= 'f' {
        10 + c as int - 'a' as int
    } else if 'A' <= c && c <= 'F' {
        10 + c as int - 'A' as int
    } else {
        0
    }
}

/// The byte written by two hex digits.
pub open spec fn hex_byte_value(hi: char, lo: char) -> int {
    hex_digit_value(hi) * 16 + hex_digit_value(lo)
}

impl Color {
    pub fn new(r: u8, g: u8, b: u8) -> (c: Self)
        ensures
            c.r == r,
            c.g == g,
            c.b == b,
    {
        Color { r, g, b }
    }

    /// The channel order the framebuffer wants: blue, green, red.
    pub fn to_framebuffer_pixel(self) -> (p: [u8; 3])
        ensures
            p@ =~= seq![self.b, self.g, self.r],
    {
        [self.b, self.g, self.r]
    }

    /// Reads a `#rrggbb` hex code. Returns the color exactly when the text
    /// is a `#` followed by six hex digits; each failure names what was
    /// wrong.
    pub fn from_str(s: &str) -> (res: Result<Color, &'static str>)
        ensures
            (s@.len() == 7 && s@[0] == '#' && forall|i: int|
                1 <= i < 7 ==> is_hex_digit(#[trigger] s@[i])) <==> res is Ok,
            res matches Ok(c) ==> {
                &&& c.r == hex_byte_value(s@[1], s@[2])
                &&& c.g == hex_byte_value(s@[3], s@[4])
                &&& c.b == hex_byte_value(s@[5], s@[6])
            },
            res matches Err(m) ==> m@ == if s@.len() == 0 || s@[0] != '#' {
                "Color hex code must start with '#'"@
            } else if s@.len() != 7 {
                "Color hex code must be 6 characters long"@
            } else {
                "Color hex code must be valid hexadecimal"@
            },
    {
        let len = s.unicode_len();

        if len == 0 || s.get_char(0) != '#' {
            return Err("Color hex code must start with '#'");
        }

        if len != 7 {
            return Err("Color hex code must be 6 characters long");
        }

        let mut digits: [u8; 6] = [0, 0, 0, 0, 0, 0];
        let mut i: usize = 1;

        while i < 7
            invariant
                1 <= i <= 7,
                s@.len() == 7,
                s@[0] == '#',
                forall|j: int| 1 <= j < i ==> is_hex_digit(#[trigger] s@[j]),
                forall|j: int|
                    0 <= j < i - 1 ==> #[trigger] digits@[j] == hex_digit_value(s@[j + 1]),
            decreases 7 - i,
        {
            let c = s.get_char(i);
            let value: u8 = if '0' <= c && c <= '9' {
                (c as u8) - ('0' as u8)
            } else if 'a' <= c && c <= 'f' {
                10 + (c as u8) - ('a' as u8)
            } else if 'A' <= c && c <= 'F' {
                10 + (c as u8) - ('A' as u8)
            } else {
                return Err("Color hex code must be valid hexadecimal");
            };
            digits[i - 1] = value;
            i = i + 1;
        }

        proof {
            assert(forall|j: int| 0 <= j < 6 ==> #[trigger] digits@[j] < 16);
        }

        Ok(Color {
            r: digits[0] * 16 + digits[1],
            g: digits[2] * 16 + digits[3],
            b: digits[4] * 16 + digits[5],
        })
    }
}

/// The closed set of palette entries: the eight ANSI colors plus the default
/// background and foreground.
#[derive(Debug, Clone, Copy, PartialEq, Eq, Structural)]
pub enum ColorName {
    Black,
    Red,
    Green,
    Yellow,
    Blue,
    Magenta,
    Cyan,
    White,

    DefaultBackground,
    DefaultForeground,
}

impl ColorName {
    /// The palette index this name selects.
    pub open spec fn index_spec(self) -> int {
        match self {
            ColorName::Black => 0,
            ColorName::Red => 1,
            ColorName::Green => 2,
            ColorName::Yellow => 3,
            ColorName::Blue => 4,
            ColorName::Magenta => 5,
            ColorName::Cyan => 6,
            ColorName::White => 7,
            ColorName::DefaultBackground => 8,
            ColorName::DefaultForeground => 9,
        }
    }

    /// The theme's RGB value for each palette entry.
    pub open spec fn color_spec(self) -> Color {
        match self {
            ColorName::Black => Color { r: 0x66, g: 0x5c, b: 0x54 },
            ColorName::Red => Color { r: 0xEA, g: 0x69, b: 0x62 },
            ColorName::Green => Color { r: 0xA9, g: 0xB6, b: 0x65 },
            ColorName::Yellow => Color { r: 0xD8, g: 0xA6, b: 0x57 },
            ColorName::Blue => Color { r: 0x7D, g: 0xAE, b: 0xA3 },
            ColorName::Magenta => Color { r: 0xD3, g: 0x86, b: 0x9B },
            ColorName::Cyan => Color { r: 0x89, g: 0xB4, b: 0x82 },
            ColorName::White => Color { r: 0xDD, g: 0xC7, b: 0xA1 },
            ColorName::DefaultBackground => Color { r: 0x29, g: 0x28, b: 0x28 },
            ColorName::DefaultForeground => Color { r: 0xEB, g: 0xDB, b: 0xD2 },
        }
    }

    pub fn color(self) -> (c: Color)
        ensures
            c == self.color_spec(),
    {
        match self {
            ColorName::Black => Color { r: 0x66, g: 0x5c, b: 0x54 },
            ColorName::Red => Color { r: 0xEA, g: 0x69, b: 0x62 },
            ColorName::Green => Color { r: 0xA9, g: 0xB6, b: 0x65 },
            ColorName::Yellow => Color { r: 0xD8, g: 0xA6, b: 0x57 },
            ColorName::Blue => Color { r: 0x7D, g: 0xAE, b: 0xA3 },
            ColorName::Magenta => Color { r: 0xD3, g: 0x86, b: 0x9B },
            ColorName::Cyan => Color { r: 0x89, g: 0xB4, b: 0x82 },
            ColorName::White => Color { r: 0xDD, g: 0xC7, b: 0xA1 },
            ColorName::DefaultBackground => Color { r: 0x29, g: 0x28, b: 0x28 },
            ColorName::DefaultForeground => Color { r: 0xEB, g: 0xDB, b: 0xD2 },
        }
    }

    /// The escape string that selects this entry, written as a foreground
    /// SGR code (the two non-standard trailing entries select the defaults).
    pub open spec fn ansi_spec(self) -> Seq<char> {
        match self {
            ColorName::Black => "\x1B[30m"@,
            ColorName::Red => "\x1B[31m"@,
            ColorName::Green => "\x1B[32m"@,
            ColorName::Yellow => "\x1B[33m"@,
            ColorName::Blue => "\x1B[34m"@,
            ColorName::Magenta => "\x1B[35m"@,
            ColorName::Cyan => "\x1B[36m"@,
            ColorName::White => "\x1B[37m"@,
            ColorName::DefaultBackground => "\x1B[38m"@,
            ColorName::DefaultForeground => "\x1B[39m"@,
        }
    }

    pub fn ansi(self) -> (s: &'static str)
        ensures
            s@ == self.ansi_spec(),
    {
        match self {
            ColorName::Black => "\x1B[30m",
            ColorName::Red => "\x1B[31m",
            ColorName::Green => "\x1B[32m",
            ColorName::Yellow => "\x1B[33m",
            ColorName::Blue => "\x1B[34m",
            ColorName::Magenta => "\x1B[35m",
            ColorName::Cyan => "\x1B[36m",
            ColorName::White => "\x1B[37m",
            ColorName::DefaultBackground => "\x1B[38m",
            ColorName::DefaultForeground => "\x1B[39m",
        }
    }

    /// The inverse of `index_spec` on the ten palette indices.
    pub open spec fn from_index_spec(value: int) -> ColorName {
        if value == 0 {
            ColorName::Black
        } else if value == 1 {
            ColorName::Red
        } else if value == 2 {
            ColorName::Green
        } else if value == 3 {
            ColorName::Yellow
        } else if value == 4 {
            ColorName::Blue
        } else if value == 5 {
            ColorName::Magenta
        } else if value == 6 {
            ColorName::Cyan
        } else if value == 7 {
            ColorName::White
        } else if value == 8 {
            ColorName::DefaultBackground
        } else {
            ColorName::DefaultForeground
        }
    }

    /// The palette entry at an index; only the ten palette indices exist.
    pub fn from_u8(value: u8) -> (c: Self)
        requires
            value < 10,
        ensures
            c == ColorName::from_index_spec(value as int),
            c.index_spec() == value as int,
    {
        match value {
            0 => ColorName::Black,
            1 => ColorName::Red,
            2 => ColorName::Green,
            3 => ColorName::Yellow,
            4 => ColorName::Blue,
            5 => ColorName::Magenta,
            6 => ColorName::Cyan,
            7 => ColorName::White,
            8 => ColorName::DefaultBackground,
            _ => ColorName::DefaultForeground,
        }
    }
}

/// A piece of text with the foreground color it should be printed in.
pub struct ColoredStr {
    pub fg: ColorName,
    pub s: String,
}

impl ColoredStr {
    pub fn new(s: String, fg: ColorName) -> (r: Self)
        ensures
            r.fg == fg,
            r.s@ == s@,
    {
        ColoredStr { fg, s }
    }

    /// Recolors the text.
    pub fn fg(self, fg: ColorName) -> (r: Self)
        ensures
            r.fg == fg,
            r.s@ == self.s@,
    {
        ColoredStr { fg, ..self }
    }

    /// The full escape-wrapped form: the color's own escape string, the
    /// text, then the escape string that restores the default foreground.
    /// One contiguous string, so a console parses the escape in one piece.
    pub fn render(&self) -> (r: String)
        ensures
            r@ == self.fg.ansi_spec() + self.s@ + ColorName::DefaultForeground.ansi_spec(),
    {
        let mut out = String::from_str(self.fg.ansi());
        out.append(self.s.as_str());
        out.append(ColorName::DefaultForeground.ansi());
        out
    }
}

} // verus!
