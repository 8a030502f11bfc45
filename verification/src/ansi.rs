//! The ANSI/CSI decoder: turns a character stream into structured control
//! events, or reports "not an escape" without consuming anything the caller
//! still needs. The grammar covers one level of CSI: cursor motion
//! (`A`/`B`/`C`/`D`) and Select Graphic Rendition (`m`); the remaining
//! escape classes are recognized as variants but their decoding is deferred.

use vstd::prelude::*;

use crate::color::ColorName;
use crate::lookahead::{SaveStateInnerIter, SaveStateIterContainer};

verus! {

/// One decoded control item: a C0 control character or an escape sequence.
#[derive(Debug, Clone, PartialEq, Eq)]
pub enum Ansi {
    /// BEL
    Bell,
    /// BS
    Backspace,
    /// HT
    Tab,
    /// LF
    LineFeed,
    /// FF
    FormFeed,
    /// CR
    CarriageReturn,
    /// ESC
    Escape(AnsiEscape),
}

/// The escape classes after ESC. Only the CSI branch is decoded in full; the
/// others are named so a later decoder can give them an effect.
#[derive(Debug, Clone, PartialEq, Eq)]
pub enum AnsiEscape {
    /// SS2
    SingleShiftTwo,
    /// SS3
    SingleShiftThree,
    /// DCS
    DeviceControlString,
    /// CSI
    ControlSequenceIntroducer(AnsiEscapeCSI),
    /// ST
    StringTerminator,
    /// OSC
    OperatingSystemCommand,
    /// SOS
    StartOfString,
    /// PM
    PrivacyMessage,
    /// APC
    ApplicationProgramCommand,
}

/// The CSI commands. The decoder produces the four cursor motions and
/// `SelectGraphicRendition`; the others are part of the grammar's vocabulary
/// for later use.
#[derive(Debug, Clone, PartialEq, Eq)]
pub enum AnsiEscapeCSI {
    CursorUp(usize),
    CursorDown(usize),
    CursorForward(usize),
    CursorBack(usize),
    CursorNextLine(i32),
    CursorPreviousLine(i32),
    CursorHorizontalAbsolute(i32),
    CursorPosition { rows: i32, columns: i32 },
    EraseInDisplay(EraseBy),
    EraseInLine(EraseBy),
    ScrollUp(Option<u32>),
    ScrollDown(Option<u32>),
    HorizontalVerticalPosition { rows: i32, columns: i32 },
    SelectGraphicRendition(GraphicsAttributes),
    SaveCurrentCursorPosition,
    RestoreSavedCursorPosition,
}

/// What an erase command clears relative to the cursor.
#[derive(Debug, Default, Clone, Copy, PartialEq, Eq)]
pub enum EraseBy {
    #[default]
    ClearToEnd,
    ClearToStart,
    ClearAll,
}

/// The graphics state a Select Graphic Rendition command sets: an optional
/// new foreground and an optional new background.
#[derive(Debug, Default, Clone, PartialEq, Eq)]
pub struct GraphicsAttributes {
    pub foreground_color: Option<ColorName>,
    pub background_color: Option<ColorName>,
}

/// The ESC control character that opens every escape sequence.
pub open spec fn esc_char() -> char {
    '\x1B'
}

pub open spec fn is_digit(c: char) -> bool {
    '0' <= c && c <= '9'
}

pub open spec fn digit_value(c: char) -> int {
    c as int - '0' as int
}

pub open spec fn is_letter(c: char) -> bool {
    ('a' <= c && c <= 'z') || ('A' <= c && c <= 'Z')
}

/// True of the characters that end a CSI parameter run.
pub open spec fn is_param_end(c: char) -> bool {
    is_letter(c) || c == ';'
}

/// How many digits stand at position `i` of `s`.
pub open spec fn digits_len(s: Seq<char>, i: int) -> int
    decreases s.len() - i when 0 <= i <= s.len()
{
    if i < s.len() && is_digit(s[i]) {
        1 + digits_len(s, i + 1)
    } else {
        0
    }
}

/// The base-10 value of the digits `s[i..j)`.
pub open spec fn int_value(s: Seq<char>, i: int, j: int) -> int
    decreases j - i when i <= j
{
    if i >= j {
        0
    } else {
        int_value(s, i, j - 1) * 10 + digit_value(s[j - 1])
    }
}

/// The first position at or after `i` holding a letter or `;`, or `s.len()`
/// when there is none.
pub open spec fn scan_end(s: Seq<char>, i: int) -> int
    decreases s.len() - i when 0 <= i <= s.len()
{
    if i >= s.len() {
        i
    } else if is_param_end(s[i]) {
        i
    } else {
        scan_end(s, i + 1)
    }
}

/// What `get_int` reads at position `i`: the digit run's value when the run
/// is nonzero, fits the machine, and does not run off the stream's end.
pub open spec fn get_int_spec(s: Seq<char>, i: int) -> Option<int> {
    let n = digits_len(s, i);
    let v = int_value(s, i, i + n);
    if i + n < s.len() && 0 < v <= usize::MAX {
        Some(v)
    } else {
        None
    }
}

pub broadcast proof fn lemma_digits_len_bounds(s: Seq<char>, i: int)
    requires
        0 <= i <= s.len(),
    ensures
        0 <= #[trigger] digits_len(s, i),
        i + digits_len(s, i) <= s.len(),
        forall|k: int| i <= k < i + digits_len(s, i) ==> is_digit(#[trigger] s[k]),
        i + digits_len(s, i) < s.len() ==> !is_digit(s[i + digits_len(s, i)]),
    decreases s.len() - i,
{
    if i < s.len() && is_digit(s[i]) {
        lemma_digits_len_bounds(s, i + 1);
    }
}

pub broadcast proof fn lemma_scan_end_bounds(s: Seq<char>, i: int)
    requires
        0 <= i <= s.len(),
    ensures
        i <= #[trigger] scan_end(s, i) <= s.len(),
        forall|k: int| i <= k < scan_end(s, i) ==> !is_param_end(#[trigger] s[k]),
        scan_end(s, i) < s.len() ==> is_param_end(s[scan_end(s, i)]),
    decreases s.len() - i,
{
    if i < s.len() && !is_param_end(s[i]) {
        lemma_scan_end_bounds(s, i + 1);
    }
}

/// Appending one digit grows the value: once past the machine range it never
/// comes back.
proof fn lemma_int_value_monotone(s: Seq<char>, i: int, j: int)
    requires
        i <= j,
        forall|k: int| i <= k < j ==> is_digit(#[trigger] s[k]),
    ensures
        int_value(s, i, j) >= 0,
        forall|k: int|
            i <= k < j && is_digit(s[k]) ==> #[trigger] int_value(s, i, k + 1) == int_value(
                s,
                i,
                k,
            ) * 10 + digit_value(s[k]),
    decreases j - i,
{
    if i < j {
        lemma_int_value_monotone(s, i, j - 1);
    }
}

/// Reads a run of decimal digits from the cursor. The digits are consumed in
/// every case; the value comes back only when the run is nonzero, fits in
/// `usize`, and a character follows it (a run against the stream's end, an
/// empty or zero run, and an overflowing run all yield `None`, matching the
/// per-command defaulting of the grammar).
pub fn get_int(
    iter: &mut SaveStateInnerIter,
    container: &mut SaveStateIterContainer<char>,
) -> (r: Option<usize>)
    requires
        old(iter).index_spec() <= old(container).cache_spec().len(),
    ensures
        final(container).stream_spec() == old(container).stream_spec(),
        final(iter).index_spec() <= final(container).cache_spec().len(),
        old(container).cache_spec().len() <= final(container).cache_spec().len(),
        final(iter).index_spec() == old(iter).index_spec() + digits_len(
            old(container).stream_spec(),
            old(iter).index_spec() as int,
        ),
        r == match get_int_spec(old(container).stream_spec(), old(iter).index_spec() as int) {
            Some(v) => Some(v as usize),
            None => None::<usize>,
        },
{
    let ghost s = old(container).stream_spec();
    let ghost i0 = old(iter).index_spec() as int;
    let ghost n = digits_len(s, i0);

    proof {
        lemma_digits_len_bounds(s, i0);
        lemma_int_value_monotone(s, i0, i0 + n);
    }

    let mut value: usize = 0;
    let mut overflowed: bool = false;
    let ghost mut k: int = 0;

    loop
        invariant
            s == old(container).stream_spec(),
            i0 == old(iter).index_spec() as int,
            0 <= k <= n,
            n == digits_len(s, i0),
            i0 + n <= s.len(),
            iter.index_spec() == i0 + k,
            iter.index_spec() <= container.cache_spec().len(),
            old(container).cache_spec().len() <= container.cache_spec().len(),
            container.stream_spec() == s,
            forall|t: int| i0 <= t < i0 + n ==> is_digit(#[trigger] s[t]),
            i0 + n < s.len() ==> !is_digit(s[i0 + n]),
            !overflowed ==> value == int_value(s, i0, i0 + k),
            overflowed ==> int_value(s, i0, i0 + k) > usize::MAX,
            forall|t: int|
                i0 <= t < i0 + n && is_digit(s[t]) ==> #[trigger] int_value(s, i0, t + 1)
                    == int_value(s, i0, t) * 10 + digit_value(s[t]),
        ensures
            k == n,
            i0 + n < s.len(),
            iter.index_spec() == i0 + n,
            iter.index_spec() <= container.cache_spec().len(),
            old(container).cache_spec().len() <= container.cache_spec().len(),
            container.stream_spec() == s,
            !overflowed ==> value == int_value(s, i0, i0 + n),
            overflowed ==> int_value(s, i0, i0 + n) > usize::MAX,
        decreases n - k,
    {
        let c = match iter.peek(container) {
            Some(c) => c,
            None => {
                proof {
                    assert(k == n);
                }
                return None;
            },
        };

        if !('0' <= c && c <= '9') {
            proof {
                assert(k == n);
            }
            break;
        }

        proof {
            assert(k < n);
        }

        let _advanced = iter.next(container);
        let digit: usize = (c as usize) - ('0' as usize);

        match value.checked_mul(10) {
            Some(v10) => match v10.checked_add(digit) {
                Some(v) => {
                    proof {
                        assert(int_value(s, i0, i0 + k + 1) == int_value(s, i0, i0 + k) * 10
                            + digit_value(s[i0 + k]));
                    }
                    value = v;
                },
                None => {
                    proof {
                        assert(int_value(s, i0, i0 + k + 1) == int_value(s, i0, i0 + k) * 10
                            + digit_value(s[i0 + k]));
                    }
                    overflowed = true;
                },
            },
            None => {
                proof {
                    assert(int_value(s, i0, i0 + k + 1) == int_value(s, i0, i0 + k) * 10
                        + digit_value(s[i0 + k]));
                }
                overflowed = true;
            },
        }

        proof {
            k = k + 1;
        }
    }

    if overflowed || value == 0 {
        None
    } else {
        Some(value)
    }
}

/// A graphics state that changes nothing.
pub open spec fn empty_attributes() -> GraphicsAttributes {
    GraphicsAttributes { foreground_color: None, background_color: None }
}

/// What one SGR code does to the graphics state: 30-37 pick a foreground by
/// palette index, 39 restores the default foreground, 40-47 and 49 do the
/// same for the background, and every other code is ignored.
pub open spec fn sgr_step(attr: GraphicsAttributes, code: int) -> GraphicsAttributes {
    if 30 <= code <= 37 {
        GraphicsAttributes {
            foreground_color: Some(ColorName::from_index_spec(code - 30)),
            ..attr
        }
    } else if code == 39 {
        GraphicsAttributes { foreground_color: Some(ColorName::DefaultForeground), ..attr }
    } else if 40 <= code <= 47 {
        GraphicsAttributes {
            background_color: Some(ColorName::from_index_spec(code - 40)),
            ..attr
        }
    } else if code == 49 {
        GraphicsAttributes { background_color: Some(ColorName::DefaultBackground), ..attr }
    } else {
        attr
    }
}

/// The SGR tail of a CSI sequence, from position `i`: repeatedly a numeric
/// code (empty or unreadable defaults to 0) followed by one character; `m`
/// ends the sequence, anything else continues it. Yields the final graphics
/// state and the position after the `m`, or `None` when the stream ends
/// first.
pub open spec fn parse_sgr(s: Seq<char>, i: int, attr: GraphicsAttributes) -> Option<
    (GraphicsAttributes, int),
>
    decreases s.len() - i when 0 <= i <= s.len()
{
    let n = digits_len_clamped(s, i);
    let code = match get_int_spec(s, i) {
        Some(v) => v,
        None => 0,
    };
    let stepped = sgr_step(attr, code);
    if i + n >= s.len() {
        None
    } else if s[i + n] == 'm' {
        Some((stepped, i + n + 1))
    } else {
        parse_sgr(s, i + n + 1, stepped)
    }
}

/// `digits_len`, guarded so recursion measures stay in range.
pub open spec fn digits_len_clamped(s: Seq<char>, i: int) -> int {
    let n = digits_len(s, i);
    if 0 <= n && i + n <= s.len() {
        n
    } else {
        0
    }
}

/// The cursor-motion command a terminator letter selects.
pub open spec fn cursor_command(t: char, amount: usize) -> AnsiEscapeCSI {
    if t == 'A' {
        AnsiEscapeCSI::CursorUp(amount)
    } else if t == 'B' {
        AnsiEscapeCSI::CursorDown(amount)
    } else if t == 'C' {
        AnsiEscapeCSI::CursorForward(amount)
    } else {
        AnsiEscapeCSI::CursorBack(amount)
    }
}

/// A CSI sequence's body, from position `i` (just after `ESC [`): scan ahead
/// to the first letter or `;`; dispatch on it; a cursor letter takes its
/// digits-only parameter (default 1) and must follow it directly, `m` hands
/// over to the SGR loop, and any other terminator is unrecognized. Yields
/// the command and the position after the sequence.
pub open spec fn parse_csi(s: Seq<char>, i: int) -> Option<(AnsiEscapeCSI, int)> {
    let e = scan_end(s, i);
    if e >= s.len() {
        None
    } else {
        let t = s[e];
        if t == 'A' || t == 'B' || t == 'C' || t == 'D' {
            let n = digits_len(s, i);
            let amount: int = match get_int_spec(s, i) {
                Some(v) => v,
                None => 1,
            };
            if i + n < s.len() && s[i + n] == t {
                Some((cursor_command(t, amount as usize), i + n + 1))
            } else {
                None
            }
        } else if t == 'm' {
            match parse_sgr(s, i, empty_attributes()) {
                Some((attr, j)) => Some((AnsiEscapeCSI::SelectGraphicRendition(attr), j)),
                None => None,
            }
        } else {
            None
        }
    }
}

/// An escape sequence's body, from position `i` (just after ESC). Only the
/// CSI introducer `[` is decoded further.
pub open spec fn parse_escape(s: Seq<char>, i: int) -> Option<(AnsiEscape, int)> {
    if 0 <= i < s.len() && s[i] == '[' {
        match parse_csi(s, i + 1) {
            Some((csi, j)) => Some((AnsiEscape::ControlSequenceIntroducer(csi), j)),
            None => None,
        }
    } else {
        None
    }
}

/// A full control item from position `i`: ESC followed by an escape body.
pub open spec fn parse_ansi(s: Seq<char>, i: int) -> Option<(Ansi, int)> {
    if 0 <= i < s.len() && s[i] == esc_char() {
        match parse_escape(s, i + 1) {
            Some((esc, j)) => Some((Ansi::Escape(esc), j)),
            None => None,
        }
    } else {
        None
    }
}

/// A successful SGR tail always ends inside the stream, past where it
/// began.
pub proof fn lemma_parse_sgr_advances(s: Seq<char>, i: int, attr: GraphicsAttributes)
    requires
        0 <= i <= s.len(),
    ensures
        parse_sgr(s, i, attr) matches Some((a, j)) ==> i < j <= s.len(),
    decreases s.len() - i,
{
    lemma_digits_len_bounds(s, i);
    let n = digits_len_clamped(s, i);
    if i + n < s.len() && s[i + n] != 'm' {
        let code = match get_int_spec(s, i) {
            Some(v) => v,
            None => 0,
        };
        lemma_parse_sgr_advances(s, i + n + 1, sgr_step(attr, code));
    }
}

/// A successful decode always ends inside the stream, strictly past where
/// it began.
pub proof fn lemma_parse_ansi_advances(s: Seq<char>, i: int)
    requires
        0 <= i <= s.len(),
    ensures
        parse_ansi(s, i) matches Some((a, j)) ==> i < j <= s.len(),
{
    if 0 <= i < s.len() && s[i] == esc_char() {
        let i1 = i + 1;
        if 0 <= i1 < s.len() && s[i1] == '[' {
            let i2 = i1 + 1;
            lemma_scan_end_bounds(s, i2);
            lemma_digits_len_bounds(s, i2);
            lemma_parse_sgr_advances(s, i2, empty_attributes());
        }
    }
}

/// The SGR loop: reads codes and separators until the final `m`. On failure
/// the cursor is left wherever the scan stopped; the caller that speculated
/// holds the checkpoint.
fn parse_sgr_exec(
    iter: &mut SaveStateInnerIter,
    container: &mut SaveStateIterContainer<char>,
) -> (r: Option<GraphicsAttributes>)
    requires
        old(iter).index_spec() <= old(container).cache_spec().len(),
    ensures
        final(container).stream_spec() == old(container).stream_spec(),
        final(iter).index_spec() <= final(container).cache_spec().len(),
        old(container).cache_spec().len() <= final(container).cache_spec().len(),
        match parse_sgr(
            old(container).stream_spec(),
            old(iter).index_spec() as int,
            empty_attributes(),
        ) {
            Some((attr, j)) => r == Some(attr) && final(iter).index_spec() == j,
            None => r == None::<GraphicsAttributes>,
        },
{
    let ghost s = old(container).stream_spec();
    let ghost i0 = old(iter).index_spec() as int;

    let mut foreground: Option<ColorName> = None;
    let mut background: Option<ColorName> = None;

    loop
        invariant_except_break
            i0 <= iter.index_spec() <= s.len(),
            parse_sgr(s, i0, empty_attributes()) == parse_sgr(
                s,
                iter.index_spec() as int,
                GraphicsAttributes { foreground_color: foreground, background_color: background },
            ),
        invariant
            s == old(container).stream_spec(),
            i0 == old(iter).index_spec() as int,
            container.stream_spec() == s,
            iter.index_spec() <= container.cache_spec().len(),
            old(container).cache_spec().len() <= container.cache_spec().len(),
        ensures
            parse_sgr(s, i0, empty_attributes()) == Some(
                (
                    GraphicsAttributes {
                        foreground_color: foreground,
                        background_color: background,
                    },
                    iter.index_spec() as int,
                ),
            ),
        decreases s.len() - iter.index_spec(),
    {
        let ghost j = iter.index_spec() as int;
        let ghost n = digits_len(s, j);
        let ghost attr_before = GraphicsAttributes {
            foreground_color: foreground,
            background_color: background,
        };
        proof {
            lemma_digits_len_bounds(s, j);
            assert(digits_len_clamped(s, j) == n);
        }

        let code: usize = match get_int(iter, container) {
            Some(v) => v,
            None => 0,
        };

        proof {
            assert(code as int == match get_int_spec(s, j) {
                Some(v) => v,
                None => 0,
            });
        }

        if 30 <= code && code <= 37 {
            foreground = Some(ColorName::from_u8((code - 30) as u8));
        } else if code == 39 {
            foreground = Some(ColorName::DefaultForeground);
        } else if 40 <= code && code <= 47 {
            background = Some(ColorName::from_u8((code - 40) as u8));
        } else if code == 49 {
            background = Some(ColorName::DefaultBackground);
        }

        proof {
            assert(GraphicsAttributes {
                foreground_color: foreground,
                background_color: background,
            } == sgr_step(attr_before, code as int));
        }

        match iter.next(container) {
            None => {
                proof {
                    assert(parse_sgr(s, j, attr_before) is None);
                }
                return None;
            },
            Some(c) => {
                if c == 'm' {
                    proof {
                        assert(s[j + n] == 'm');
                        assert(parse_sgr(s, j, attr_before) == Some(
                            (sgr_step(attr_before, code as int), j + n + 1),
                        ));
                    }
                    break;
                } else {
                    proof {
                        assert(s[j + n] != 'm');
                        assert(parse_sgr(s, j, attr_before) == parse_sgr(
                            s,
                            j + n + 1,
                            sgr_step(attr_before, code as int),
                        ));
                    }
                }
            },
        }
    }

    Some(GraphicsAttributes { foreground_color: foreground, background_color: background })
}

impl AnsiEscapeCSI {
    /// Decodes a CSI body at the cursor: scans ahead for the terminating
    /// letter, rewinds to the start of the parameters, and dispatches on the
    /// terminator. On success the cursor stands just past the sequence; on
    /// failure its position is meaningless and the caller rewinds.
    pub fn parse(
        iter: &mut SaveStateInnerIter,
        container: &mut SaveStateIterContainer<char>,
    ) -> (r: Option<AnsiEscapeCSI>)
        requires
            old(iter).index_spec() <= old(container).cache_spec().len(),
        ensures
            final(container).stream_spec() == old(container).stream_spec(),
            final(iter).index_spec() <= final(container).cache_spec().len(),
            old(container).cache_spec().len() <= final(container).cache_spec().len(),
            match parse_csi(old(container).stream_spec(), old(iter).index_spec() as int) {
                Some((csi, j)) => r == Some(csi) && final(iter).index_spec() == j,
                None => r == None::<AnsiEscapeCSI>,
            },
    {
        let ghost s = old(container).stream_spec();
        let ghost i0 = old(iter).index_spec() as int;
        let ghost e = scan_end(s, i0);
        proof {
            lemma_scan_end_bounds(s, i0);
        }

        let state = iter.save_state();

        let mut end_letter: Option<char> = None;

        loop
            invariant_except_break
                i0 <= iter.index_spec() <= e <= s.len(),
                end_letter == None::<char>,
            invariant
                s == old(container).stream_spec(),
                i0 == old(iter).index_spec() as int,
                e == scan_end(s, i0),
                container.stream_spec() == s,
                iter.index_spec() <= container.cache_spec().len(),
                old(container).cache_spec().len() <= container.cache_spec().len(),
                forall|k: int| i0 <= k < e ==> !is_param_end(#[trigger] s[k]),
                e < s.len() ==> is_param_end(s[e]),
            ensures
                end_letter == if e < s.len() {
                    Some(s[e])
                } else {
                    None::<char>
                },
            decreases s.len() - iter.index_spec(),
        {
            match iter.next(container) {
                None => {
                    proof {
                        assert(iter.index_spec() == e == s.len());
                    }
                    break;
                },
                Some(item) => {
                    let letter = ('a' <= item && item <= 'z') || ('A' <= item && item <= 'Z')
                        || item == ';';
                    if letter {
                        proof {
                            assert(iter.index_spec() - 1 == e);
                        }
                        end_letter = Some(item);
                        break;
                    }
                },
            }
        }

        let t = match end_letter {
            Some(t) => t,
            None => {
                return None;
            },
        };

        iter.load_state(state);

        if t == 'A' || t == 'B' || t == 'C' || t == 'D' {
            let amount: usize = match get_int(iter, container) {
                Some(v) => v,
                None => 1,
            };

            match iter.next(container) {
                Some(c) => {
                    if c == t {
                        Some(
                            if t == 'A' {
                                AnsiEscapeCSI::CursorUp(amount)
                            } else if t == 'B' {
                                AnsiEscapeCSI::CursorDown(amount)
                            } else if t == 'C' {
                                AnsiEscapeCSI::CursorForward(amount)
                            } else {
                                AnsiEscapeCSI::CursorBack(amount)
                            },
                        )
                    } else {
                        None
                    }
                },
                None => None,
            }
        } else if t == 'm' {
            match parse_sgr_exec(iter, container) {
                Some(attr) => Some(AnsiEscapeCSI::SelectGraphicRendition(attr)),
                None => None,
            }
        } else {
            None
        }
    }
}

impl AnsiEscape {
    /// Decodes the escape body after ESC: only `[` (a CSI) is understood.
    pub fn parse(
        iter: &mut SaveStateInnerIter,
        container: &mut SaveStateIterContainer<char>,
    ) -> (r: Option<AnsiEscape>)
        requires
            old(iter).index_spec() <= old(container).cache_spec().len(),
        ensures
            final(container).stream_spec() == old(container).stream_spec(),
            final(iter).index_spec() <= final(container).cache_spec().len(),
            old(container).cache_spec().len() <= final(container).cache_spec().len(),
            match parse_escape(old(container).stream_spec(), old(iter).index_spec() as int) {
                Some((esc, j)) => r == Some(esc) && final(iter).index_spec() == j,
                None => r == None::<AnsiEscape>,
            },
    {
        match iter.next(container) {
            Some(c) => {
                if c == '[' {
                    match AnsiEscapeCSI::parse(iter, container) {
                        Some(csi) => Some(AnsiEscape::ControlSequenceIntroducer(csi)),
                        None => None,
                    }
                } else {
                    None
                }
            },
            None => None,
        }
    }
}

impl Ansi {
    /// True when the next unread character opens an escape sequence. Neither
    /// the cursor nor the stream moves.
    pub fn does_iter_contain(
        iter: &SaveStateInnerIter,
        container: &SaveStateIterContainer<char>,
    ) -> (r: bool)
        requires
            iter.index_spec() <= container.cache_spec().len(),
        ensures
            r == (iter.index_spec() < container.stream_spec().len()
                && container.stream_spec()[iter.index_spec() as int] == esc_char()),
    {
        match iter.peek(container) {
            Some(item) => item == '\x1B',
            None => false,
        }
    }

    /// Decodes one control item at the cursor: ESC followed by an escape
    /// body. On success the cursor stands just past the sequence.
    pub fn parse(
        iter: &mut SaveStateInnerIter,
        container: &mut SaveStateIterContainer<char>,
    ) -> (r: Option<Ansi>)
        requires
            old(iter).index_spec() <= old(container).cache_spec().len(),
        ensures
            final(container).stream_spec() == old(container).stream_spec(),
            final(iter).index_spec() <= final(container).cache_spec().len(),
            old(container).cache_spec().len() <= final(container).cache_spec().len(),
            match parse_ansi(old(container).stream_spec(), old(iter).index_spec() as int) {
                Some((a, j)) => r == Some(a) && final(iter).index_spec() == j,
                None => r == None::<Ansi>,
            },
    {
        match iter.next(container) {
            Some(c) => {
                if c == '\x1B' {
                    match AnsiEscape::parse(iter, container) {
                        Some(esc) => Some(Ansi::Escape(esc)),
                        None => None,
                    }
                } else {
                    None
                }
            },
            None => None,
        }
    }
}

impl From<AnsiEscapeCSI> for Ansi {
    /// Wraps a CSI command in the full decoded-item shape.
    fn from(value: AnsiEscapeCSI) -> (r: Self) {
        Ansi::Escape(AnsiEscape::ControlSequenceIntroducer(value))
    }
}

impl vstd::std_specs::convert::FromSpecImpl<AnsiEscapeCSI> for Ansi {
    open spec fn obeys_from_spec() -> bool {
        true
    }

    open spec fn from_spec(value: AnsiEscapeCSI) -> Ansi {
        Ansi::Escape(AnsiEscape::ControlSequenceIntroducer(value))
    }
}

/// Attempts an escape decode at the cursor without ever losing the caller's
/// place. A stream whose next character is not ESC is not touched at all and
/// yields `None` ("no escape"); an ESC that fails to decode rewinds the
/// cursor to where it started and yields `Some(None)`; a decoded sequence
/// is consumed and comes back as `Some(Some(..))`.
pub fn try_parse_ansi(
    iter: &mut SaveStateInnerIter,
    container: &mut SaveStateIterContainer<char>,
) -> (r: Option<Option<Ansi>>)
    requires
        old(iter).index_spec() <= old(container).cache_spec().len(),
    ensures
        final(container).stream_spec() == old(container).stream_spec(),
        final(iter).index_spec() <= final(container).cache_spec().len(),
        (old(iter).index_spec() >= old(container).stream_spec().len() || old(
            container,
        ).stream_spec()[old(iter).index_spec() as int] != esc_char()) ==> r == None::<Option<Ansi>>
            && final(iter).index_spec() == old(iter).index_spec(),
        (old(iter).index_spec() < old(container).stream_spec().len() && old(
            container,
        ).stream_spec()[old(iter).index_spec() as int] == esc_char()) ==> match parse_ansi(
            old(container).stream_spec(),
            old(iter).index_spec() as int,
        ) {
            Some((a, j)) => r == Some(Some(a)) && final(iter).index_spec() == j,
            None => r == Some(None::<Ansi>) && final(iter).index_spec() == old(iter).index_spec(),
        },
{
    let state = iter.save_state();

    if Ansi::does_iter_contain(iter, container) {
        let parsed = Ansi::parse(iter, container);
        if parsed.is_none() {
            iter.load_state(state);
        }
        Some(parsed)
    } else {
        None
    }
}

} // verus!
