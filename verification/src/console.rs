//! The console state machine: cursor position, current text style, the
//! bounded scrollback cache of per-cell render records, and the
//! output/input mode flag. Rendering goes through the raster operations on
//! the same type; the scrollback model here is what the contracts speak of.

use vstd::prelude::*;
use vstd::pervasive::VecAdditionalExecFns;

use std::collections::VecDeque;

use crate::ansi::{Ansi, AnsiEscape, AnsiEscapeCSI, GraphicsAttributes};
use crate::color::{Color, ColorName};
use crate::cursor::ConsoleCursor;
use crate::lookahead::SaveStateIterContainer;
use crate::font::{FontGlyph, FONT_HEIGHT, FONT_SCALE, FONT_WIDTH};
use crate::geometry::Dimensions;

verus! {

/// Which channel a write belongs to: permanent output, or the user's
/// pending input line. The caller decides; the console never infers it.
#[derive(Debug, Clone, Copy, PartialEq, Eq, Structural)]
pub enum LogType {
    Output,
    UserInput,
}

/// The colors every glyph draw reads. Mutated only by SGR sequences.
#[derive(Debug, Clone, Copy, PartialEq, Eq, Structural)]
pub struct TextStyle {
    pub foreground: Color,
    pub background: Color,
}

impl TextStyle {
    pub open spec fn default_spec() -> TextStyle {
        TextStyle {
            foreground: ColorName::DefaultForeground.color_spec(),
            background: ColorName::DefaultBackground.color_spec(),
        }
    }
}

impl Default for TextStyle {
    /// The theme's default foreground on the default background.
    fn default() -> (r: Self)
        ensures
            r == TextStyle::default_spec(),
    {
        TextStyle {
            foreground: ColorName::DefaultForeground.color(),
            background: ColorName::DefaultBackground.color(),
        }
    }
}

/// One scrollback cell: a plain character, or a recorded escape sequence
/// kept so the line replays exactly.
#[derive(Debug, Clone, PartialEq, Eq)]
pub enum CacheType {
    Char(char),
    AnsiEscape(Vec<char>),
}

/// A scrollback cell as contracts see it: the escape's characters as a
/// sequence.
#[verifier::ext_equal]
pub enum CacheCell {
    Char(char),
    AnsiEscape(Seq<char>),
}

impl DeepView for CacheType {
    type V = CacheCell;

    open spec fn deep_view(&self) -> CacheCell {
        match self {
            CacheType::Char(c) => CacheCell::Char(*c),
            CacheType::AnsiEscape(raw) => CacheCell::AnsiEscape(raw.deep_view()),
        }
    }
}

impl CacheType {
    pub fn is_char(&self) -> (r: bool)
        ensures
            r == (self.deep_view() is Char),
    {
        matches!(self, CacheType::Char(_))
    }
}

/// The console state the contracts speak of: the scrollback cells, the
/// style, the mode flag, and the cursor with its pending input line.
#[verifier::ext_equal]
pub struct ConsoleModel {
    pub lines: Seq<Seq<CacheCell>>,
    pub foreground: Color,
    pub background: Color,
    pub log_type: LogType,
    pub cursor_x: u16,
    pub cursor_y: u16,
    pub input: Seq<char>,
}

/// How many scrollback lines are kept by default before the oldest is
/// evicted.
pub const DEFAULT_CACHE_CAPACITY: usize = 500;

/// The console: screen geometry, style, the bounded scrollback, the mode
/// flag, and the cursor. Pixel output happens through the raster methods,
/// which take the framebuffer bytes as an explicit argument.
pub struct ConsoleContainer {
    pub(crate) dimensions: Dimensions<usize>,

    pub text_style: TextStyle,
    pub(crate) bytes_per_pixel: usize,

    pub(crate) cached_lines: VecDeque<Vec<CacheType>>,
    pub(crate) cache_capacity: usize,

    pub(crate) input_height: u16,
    pub log_type: LogType,

    pub(crate) cursor: ConsoleCursor,

    pub(crate) fonts: Vec<FontGlyph>,
}

impl ConsoleContainer {
    /// The scrollback as a sequence of cell sequences; the last entry is
    /// the line currently being appended to.
    pub closed spec fn lines_spec(&self) -> Seq<Seq<CacheCell>> {
        self.cached_lines.deep_view()
    }

    pub closed spec fn capacity_spec(&self) -> usize {
        self.cache_capacity
    }

    pub closed spec fn width_px_spec(&self) -> int {
        self.dimensions.width_spec() as int
    }

    pub closed spec fn height_px_spec(&self) -> int {
        self.dimensions.height_spec() as int
    }

    pub closed spec fn bytes_per_pixel_spec(&self) -> int {
        self.bytes_per_pixel as int
    }

    pub closed spec fn input_height_spec(&self) -> u16 {
        self.input_height
    }

    pub closed spec fn cursor_spec(&self) -> ConsoleCursor {
        self.cursor
    }

    pub closed spec fn fonts_spec(&self) -> Seq<FontGlyph> {
        self.fonts@
    }

    /// Screen width in character cells.
    pub open spec fn screen_cols(&self) -> int {
        self.width_px_spec() / (FONT_WIDTH * FONT_SCALE) as int
    }

    /// Screen height in character cells.
    pub open spec fn screen_rows(&self) -> int {
        self.height_px_spec() / (FONT_HEIGHT * FONT_SCALE) as int
    }

    /// Bytes per framebuffer row.
    pub open spec fn row_bytes(&self) -> int {
        self.width_px_spec() * self.bytes_per_pixel_spec()
    }

    /// The byte index of a pixel.
    pub open spec fn pixel_index_spec(&self, x: int, y: int) -> int {
        y * self.row_bytes() + x * self.bytes_per_pixel_spec()
    }

    /// Whether byte `k` belongs to the pixel at `(x, y)`.
    pub open spec fn pixel_bytes(&self, x: int, y: int, k: int) -> bool {
        self.pixel_index_spec(x, y) <= k < self.pixel_index_spec(x, y)
            + self.bytes_per_pixel_spec()
    }

    /// A pixel position that lies on the screen.
    pub open spec fn on_screen(&self, x: int, y: int) -> bool {
        0 <= x < self.width_px_spec() && 0 <= y < self.height_px_spec()
    }

    /// Whether byte `k` belongs to a pixel the raster operations may write
    /// inside the given rectangle: one that is on the screen and within the
    /// coordinate space.
    pub open spec fn drawn_bytes(&self, x0: int, y0: int, w: int, h: int, k: int) -> bool {
        exists|px: int, py: int|
            x0 <= px < x0 + w && y0 <= py < y0 + h && px <= u16::MAX && py <= u16::MAX
                && self.on_screen(px, py) && #[trigger] self.pixel_bytes(px, py, k)
    }

    /// The buffer holds `c` at pixel `(x, y)`: when the pixel's bytes lie in
    /// the buffer, they carry the color's channels in framebuffer order,
    /// with any extra channel opaque.
    pub open spec fn pixel_painted(&self, buf: Seq<u8>, x: int, y: int, c: Color) -> bool {
        self.pixel_index_spec(x, y) + self.bytes_per_pixel_spec() < buf.len() ==> forall|o: int|
            0 <= o < self.bytes_per_pixel_spec() ==> buf[self.pixel_index_spec(x, y) + o]
                == pixel_channel(c, o)
    }

    /// The left pixel edge of cell column `cx`.
    pub open spec fn cell_rect_x(cx: int) -> int {
        cx * (FONT_SCALE * FONT_WIDTH) as int
    }

    /// The top pixel edge of cell row `cy`.
    pub open spec fn cell_rect_y(cy: int) -> int {
        cy * (FONT_SCALE * FONT_HEIGHT) as int
    }

    /// Every on-screen pixel of cell `(cx, cy)`'s rectangle (one extra
    /// pixel row tall) carries the color `c`.
    pub open spec fn cell_cleared(&self, buf: Seq<u8>, cx: int, cy: int, c: Color) -> bool {
        forall|qx: int, qy: int|
            Self::cell_rect_x(cx) <= qx < Self::cell_rect_x(cx) + (FONT_WIDTH * FONT_SCALE) as int
                && Self::cell_rect_y(cy) <= qy < Self::cell_rect_y(cy) + ((FONT_HEIGHT + 1)
                * FONT_SCALE) as int && qx <= u16::MAX && qy <= u16::MAX && self.on_screen(qx, qy)
                ==> self.pixel_painted(buf, qx, qy, c)
    }

    /// The buffer changed at most inside cell `(cx, cy)`'s rectangle.
    pub open spec fn changes_within_cell(
        &self,
        pre: Seq<u8>,
        post: Seq<u8>,
        cx: int,
        cy: int,
    ) -> bool {
        forall|k: int|
            0 <= k < pre.len() && !self.drawn_bytes(
                Self::cell_rect_x(cx),
                Self::cell_rect_y(cy),
                (FONT_WIDTH * FONT_SCALE) as int,
                ((FONT_HEIGHT + 1) * FONT_SCALE) as int,
                k,
            ) ==> post[k] == pre[k]
    }

    /// Whether bitmap bit `(gx, gy)` of a glyph is set; bits outside the
    /// bitmap read as clear.
    pub open spec fn glyph_bit(g: FontGlyph, gx: int, gy: int) -> bool {
        0 <= gy * g.width + gx < g.display@.len() && g.display@[gy * g.width + gx]
    }

    /// The screen x of bitmap column `gx` of a glyph drawn in cell column
    /// `sx`: the cell edge, the scaled column, and the glyph's x offset.
    pub open spec fn glyph_pixel_x(g: FontGlyph, sx: int, gx: int) -> int {
        Self::cell_rect_x(sx) + gx * FONT_SCALE as int + FONT_SCALE as int * g.off_x
    }

    /// The screen y of bitmap row `gy` of a glyph drawn in cell row `sy`:
    /// bottom-aligned in the cell and shifted up by the glyph's y offset.
    pub open spec fn glyph_pixel_y(g: FontGlyph, sy: int, gy: int) -> int {
        Self::cell_rect_y(sy) + gy * FONT_SCALE as int + FONT_SCALE as int * (
        if FONT_HEIGHT as int >= g.height {
            FONT_HEIGHT as int - g.height
        } else {
            0
        }) - FONT_SCALE as int * g.off_y
    }

    /// The bytes a glyph blit may write: scaled squares at the glyph's
    /// bitmap positions, restricted to the screen and the coordinate space.
    pub open spec fn glyph_drawn_bytes(&self, g: FontGlyph, sx: int, sy: int, k: int) -> bool {
        exists|gx: int, gy: int|
            0 <= gx < g.width && 0 <= gy < g.height && #[trigger] self.drawn_bytes(
                Self::glyph_pixel_x(g, sx, gx),
                Self::glyph_pixel_y(g, sy, gy),
                FONT_SCALE as int,
                FONT_SCALE as int,
                k,
            )
    }

    /// The buffer shows the glyph at cell `(sx, sy)` in the given style:
    /// every bitmap bit whose scaled square starts inside the coordinate
    /// space has its on-screen pixels painted, the foreground color where
    /// the bit is set and the background where clear. A square whose origin
    /// leaves the coordinate space is clipped whole.
    pub open spec fn glyph_blitted(
        &self,
        buf: Seq<u8>,
        g: FontGlyph,
        sx: int,
        sy: int,
        style: TextStyle,
    ) -> bool {
        forall|gx: int, gy: int, qx: int, qy: int|
            #![trigger Self::glyph_pixel_x(g, sx, gx), Self::glyph_pixel_y(g, sy, gy), self.pixel_index_spec(qx, qy)]
            0 <= gx < g.width && 0 <= gy < g.height && 0 <= Self::glyph_pixel_x(g, sx, gx)
                <= u16::MAX && 0 <= Self::glyph_pixel_y(g, sy, gy) <= u16::MAX
                && Self::glyph_pixel_x(g, sx, gx) <= qx < Self::glyph_pixel_x(g, sx, gx)
                + FONT_SCALE as int && Self::glyph_pixel_y(g, sy, gy) <= qy < Self::glyph_pixel_y(
                g,
                sy,
                gy,
            ) + FONT_SCALE as int && qx <= u16::MAX && qy <= u16::MAX && self.on_screen(qx, qy)
                ==> self.pixel_painted(
                buf,
                qx,
                qy,
                if Self::glyph_bit(g, gx, gy) {
                    style.foreground
                } else {
                    style.background
                },
            )
    }

    /// A glyph offset beyond any coordinate the screen could hold pushes
    /// every square of the blit out of the coordinate space.
    pub proof fn lemma_wild_offset_out_of_range(
        &self,
        g: FontGlyph,
        sx: int,
        sy: int,
        gx: int,
        gy: int,
    )
        requires
            0 <= sx <= u16::MAX,
            0 <= sy <= u16::MAX,
            0 <= gx <= u16::MAX,
            0 <= gy <= u16::MAX,
            g.off_x > 0x7FFF_FFFF || g.off_x < -0x7FFF_FFFF || g.off_y > 0x7FFF_FFFF || g.off_y
                < -0x7FFF_FFFF,
        ensures
            !(0 <= Self::glyph_pixel_x(g, sx, gx) <= u16::MAX && 0 <= Self::glyph_pixel_y(
                g,
                sy,
                gy,
            ) <= u16::MAX),
    {
        let fsi = FONT_SCALE as int;
        let gpx = Self::glyph_pixel_x(g, sx, gx);
        let gpy = Self::glyph_pixel_y(g, sy, gy);
        let adjust: int = if FONT_HEIGHT as int >= g.height {
            FONT_HEIGHT as int - g.height
        } else {
            0
        };
        assert(fsi == 1);
        assert(0 <= Self::cell_rect_x(sx) <= 0xFFFF * 7) by (nonlinear_arith)
            requires
                Self::cell_rect_x(sx) == sx * (FONT_SCALE * FONT_WIDTH) as int,
                0 <= sx <= 0xFFFF,
                (FONT_SCALE * FONT_WIDTH) as int == 7,
        ;
        assert(0 <= Self::cell_rect_y(sy) <= 0xFFFF * 15) by (nonlinear_arith)
            requires
                Self::cell_rect_y(sy) == sy * (FONT_SCALE * FONT_HEIGHT) as int,
                0 <= sy <= 0xFFFF,
                (FONT_SCALE * FONT_HEIGHT) as int == 15,
        ;
        assert(gpx == Self::cell_rect_x(sx) + gx * 1 + 1 * g.off_x);
        assert(gpy == Self::cell_rect_y(sy) + gy * 1 + 1 * adjust - 1 * g.off_y);
        assert(0 <= adjust <= 15);
        if g.off_x > 0x7FFF_FFFF {
            assert(gpx > u16::MAX);
        } else if g.off_x < -0x7FFF_FFFF {
            assert(gpx < 0);
        } else if g.off_y > 0x7FFF_FFFF {
            assert(gpy < 0);
        } else {
            assert(gpy > u16::MAX);
        }
    }

    /// Two distinct on-screen pixels never share a byte.
    pub proof fn lemma_pixels_disjoint(&self, x1: int, y1: int, x2: int, y2: int)
        requires
            self.geometry_wf(),
            self.on_screen(x1, y1),
            self.on_screen(x2, y2),
            (x1, y1) != (x2, y2),
        ensures
            self.pixel_index_spec(x1, y1) + self.bytes_per_pixel_spec() <= self.pixel_index_spec(
                x2,
                y2,
            ) || self.pixel_index_spec(x2, y2) + self.bytes_per_pixel_spec()
                <= self.pixel_index_spec(x1, y1),
    {
        let bpp = self.bytes_per_pixel_spec();
        let row = self.row_bytes();
        let w = self.width_px_spec();
        if y1 == y2 {
            if x1 < x2 {
                assert((x1 + 1) * bpp <= x2 * bpp) by (nonlinear_arith)
                    requires
                        x1 + 1 <= x2,
                        bpp >= 0,
                ;
                assert(x1 * bpp + bpp == (x1 + 1) * bpp) by (nonlinear_arith);
            } else {
                assert((x2 + 1) * bpp <= x1 * bpp) by (nonlinear_arith)
                    requires
                        x2 + 1 <= x1,
                        bpp >= 0,
                ;
                assert(x2 * bpp + bpp == (x2 + 1) * bpp) by (nonlinear_arith);
            }
        } else if y1 < y2 {
            assert(x1 * bpp + bpp <= row && x2 * bpp >= 0 && (y1 + 1) * row <= y2 * row)
                by (nonlinear_arith)
                requires
                    0 <= x1 < w,
                    0 <= x2,
                    y1 + 1 <= y2,
                    row == w * bpp,
                    bpp >= 0,
                    row >= 0,
            ;
            assert(y1 * row + row == (y1 + 1) * row) by (nonlinear_arith);
        } else {
            assert(x2 * bpp + bpp <= row && x1 * bpp >= 0 && (y2 + 1) * row <= y1 * row)
                by (nonlinear_arith)
                requires
                    0 <= x2 < w,
                    0 <= x1,
                    y2 + 1 <= y1,
                    row == w * bpp,
                    bpp >= 0,
                    row >= 0,
            ;
            assert(y2 * row + row == (y2 + 1) * row) by (nonlinear_arith);
        }
    }

    /// Painting the pixels of one rectangle leaves every on-screen pixel
    /// outside it exactly as it was.
    pub proof fn lemma_paint_preserves_outside(
        &self,
        pre: Seq<u8>,
        post: Seq<u8>,
        x0: int,
        y0: int,
        w: int,
        h: int,
        qx: int,
        qy: int,
        c: Color,
    )
        requires
            self.geometry_wf(),
            pre.len() == post.len(),
            forall|k: int|
                0 <= k < pre.len() && !self.drawn_bytes(x0, y0, w, h, k) ==> post[k] == pre[k],
            self.on_screen(qx, qy),
            !(x0 <= qx < x0 + w && y0 <= qy < y0 + h),
            self.pixel_painted(pre, qx, qy, c),
        ensures
            self.pixel_painted(post, qx, qy, c),
    {
        let base = self.pixel_index_spec(qx, qy);
        let bpp = self.bytes_per_pixel_spec();
        assert(base >= 0) by (nonlinear_arith)
            requires
                base == qy * self.row_bytes() + qx * bpp,
                qx >= 0,
                qy >= 0,
                self.row_bytes() >= 0,
                bpp >= 0,
        ;
        if base + bpp < post.len() {
            assert forall|o: int| 0 <= o < bpp implies #[trigger] post[base + o] == pre[base
                + o] by {
                let b = base + o;
                if self.drawn_bytes(x0, y0, w, h, b) {
                    let (px, py) = choose|px: int, py: int|
                        x0 <= px < x0 + w && y0 <= py < y0 + h && px <= u16::MAX && py
                            <= u16::MAX && self.on_screen(px, py) && #[trigger] self.pixel_bytes(
                            px,
                            py,
                            b,
                        );
                    self.lemma_pixels_disjoint(qx, qy, px, py);
                    assert(false);
                }
            }
        }
    }

    /// The console as the state-machine contracts see it.
    pub closed spec fn model(&self) -> ConsoleModel {
        ConsoleModel {
            lines: self.lines_spec(),
            foreground: self.text_style.foreground,
            background: self.text_style.background,
            log_type: self.log_type,
            cursor_x: self.cursor.x_spec(),
            cursor_y: self.cursor.y_spec(),
            input: self.cursor.input_spec(),
        }
    }

    /// Well-formed: a current line always exists, the scrollback stays
    /// within its capacity, and the geometry is sane for a real screen (at
    /// least one column, two rows, whole-row byte counts that fit the
    /// machine, and cell counts that fit `u16`).
    pub open spec fn wf(&self) -> bool {
        &&& self.geometry_wf()
        &&& self.lines_spec().len() >= 1
        &&& self.lines_spec().len() <= self.capacity_spec()
        &&& self.capacity_spec() >= 1
        &&& self.cursor_spec().wf()
    }

    /// The geometry bounds alone: what the raster operations need.
    pub open spec fn geometry_wf(&self) -> bool {
        &&& self.input_height_spec() >= 1
        &&& 3 <= self.bytes_per_pixel_spec() <= 64
        &&& self.row_bytes() <= 0xFFFF_FFFF
        &&& self.height_px_spec() <= 0xFFFF_FFFF
        &&& 1 <= self.screen_cols() <= u16::MAX
        &&& 2 <= self.screen_rows() <= u16::MAX
    }

    /// A console over a framebuffer of the given pixel geometry, with the
    /// given glyph table and scrollback capacity.
    pub fn with_cache_capacity(
        dimensions: Dimensions<usize>,
        bytes_per_pixel: usize,
        fonts: Vec<FontGlyph>,
        cache_capacity: usize,
    ) -> (r: Self)
        requires
            cache_capacity >= 1,
            3 <= bytes_per_pixel <= 64,
            dimensions.width_spec() * bytes_per_pixel <= 0xFFFF_FFFF,
            dimensions.height_spec() <= 0xFFFF_FFFF,
            FONT_WIDTH * FONT_SCALE <= dimensions.width_spec(),
            dimensions.width_spec() as int / (FONT_WIDTH * FONT_SCALE) as int <= u16::MAX,
            2 * (FONT_HEIGHT * FONT_SCALE) <= dimensions.height_spec(),
            dimensions.height_spec() as int / (FONT_HEIGHT * FONT_SCALE) as int <= u16::MAX,
        ensures
            r.wf(),
            r.model() == (ConsoleModel {
                lines: seq![Seq::<CacheCell>::empty()],
                foreground: ColorName::DefaultForeground.color_spec(),
                background: ColorName::DefaultBackground.color_spec(),
                log_type: LogType::Output,
                cursor_x: 0,
                cursor_y: 0,
                input: Seq::<char>::empty(),
            }),
            r.capacity_spec() == cache_capacity,
            r.width_px_spec() == dimensions.width_spec(),
            r.height_px_spec() == dimensions.height_spec(),
            r.bytes_per_pixel_spec() == bytes_per_pixel,
            r.fonts_spec() == fonts@,
            r.input_height_spec() == 1,
    {
        let mut cached_lines: VecDeque<Vec<CacheType>> = VecDeque::new();
        cached_lines.push_back(Vec::new());

        let r = ConsoleContainer {
            dimensions,
            text_style: TextStyle::default(),
            bytes_per_pixel,
            cached_lines,
            cache_capacity,
            input_height: 1,
            log_type: LogType::Output,
            cursor: ConsoleCursor::default(),
            fonts,
        };
        proof {
            assert(r.lines_spec() =~~= seq![Seq::<CacheCell>::empty()]);
            assert(r.model().input =~= Seq::<char>::empty());
            let w = dimensions.width_spec() as int;
            let h = dimensions.height_spec() as int;
            let fw = (FONT_WIDTH * FONT_SCALE) as int;
            let fh = (FONT_HEIGHT * FONT_SCALE) as int;
            assert(w / fw >= 1) by (nonlinear_arith)
                requires
                    w >= fw,
                    fw > 0,
            ;
            assert(h / fh >= 2) by (nonlinear_arith)
                requires
                    h >= 2 * fh,
                    fh > 0,
            ;
        }
        r
    }

    /// Same console with the default scrollback capacity.
    pub fn new(dimensions: Dimensions<usize>, bytes_per_pixel: usize, fonts: Vec<FontGlyph>) -> (r:
        Self)
        requires
            3 <= bytes_per_pixel <= 64,
            dimensions.width_spec() * bytes_per_pixel <= 0xFFFF_FFFF,
            dimensions.height_spec() <= 0xFFFF_FFFF,
            FONT_WIDTH * FONT_SCALE <= dimensions.width_spec(),
            dimensions.width_spec() as int / (FONT_WIDTH * FONT_SCALE) as int <= u16::MAX,
            2 * (FONT_HEIGHT * FONT_SCALE) <= dimensions.height_spec(),
            dimensions.height_spec() as int / (FONT_HEIGHT * FONT_SCALE) as int <= u16::MAX,
        ensures
            r.wf(),
            r.model() == (ConsoleModel {
                lines: seq![Seq::<CacheCell>::empty()],
                foreground: ColorName::DefaultForeground.color_spec(),
                background: ColorName::DefaultBackground.color_spec(),
                log_type: LogType::Output,
                cursor_x: 0,
                cursor_y: 0,
                input: Seq::<char>::empty(),
            }),
            r.capacity_spec() == DEFAULT_CACHE_CAPACITY,
            r.width_px_spec() == dimensions.width_spec(),
            r.height_px_spec() == dimensions.height_spec(),
            r.bytes_per_pixel_spec() == bytes_per_pixel,
            r.fonts_spec() == fonts@,
            r.input_height_spec() == 1,
    {
        Self::with_cache_capacity(dimensions, bytes_per_pixel, fonts, DEFAULT_CACHE_CAPACITY)
    }

    /// Screen width in cells.
    pub fn pixel_width(&self) -> (r: u16)
        requires
            self.geometry_wf(),
        ensures
            r as int == self.screen_cols(),
    {
        (self.dimensions.width() / (FONT_WIDTH * FONT_SCALE) as usize) as u16
    }

    /// Screen height in cells.
    pub fn pixel_height(&self) -> (r: u16)
        requires
            self.geometry_wf(),
        ensures
            r as int == self.screen_rows(),
    {
        (self.dimensions.height() / (FONT_HEIGHT * FONT_SCALE) as usize) as u16
    }

    /// Bytes per framebuffer row.
    pub fn dim_pixel_width(&self) -> (r: usize)
        requires
            self.geometry_wf(),
        ensures
            r as int == self.row_bytes(),
    {
        self.dimensions.width() * self.bytes_per_pixel
    }

    /// The screen size in cells.
    pub fn screen_dimensions(&self) -> (r: Dimensions<u16>)
        requires
            self.geometry_wf(),
        ensures
            r.width_spec() as int == self.screen_cols(),
            r.height_spec() as int == self.screen_rows(),
    {
        Dimensions::new(self.pixel_width(), self.pixel_height())
    }

    /// Where `move_cursor` puts one axis: the free move, then a clamp into
    /// the screen.
    pub open spec fn clamped_axis(value: u16, delta: int, limit: int) -> u16 {
        let moved = ConsoleCursor::moved_axis(value, delta);
        if moved >= limit {
            (limit - 1) as u16
        } else {
            moved
        }
    }

    /// Moves the cursor by a signed cell delta and clamps the result onto
    /// the screen: afterwards the position always satisfies
    /// `x < screen_cols` and `y < screen_rows`. A negative delta larger
    /// than the current coordinate leaves that axis unchanged.
    pub fn move_cursor(&mut self, horiz: i32, vert: i32)
        requires
            old(self).wf(),
        ensures
            final(self).wf(),
            final(self).model() == (ConsoleModel {
                cursor_x: Self::clamped_axis(
                    old(self).model().cursor_x,
                    horiz as int,
                    old(self).screen_cols(),
                ),
                cursor_y: Self::clamped_axis(
                    old(self).model().cursor_y,
                    vert as int,
                    old(self).screen_rows(),
                ),
                ..old(self).model()
            }),
            0 <= final(self).model().cursor_x < final(self).screen_cols(),
            0 <= final(self).model().cursor_y < final(self).screen_rows(),
            final(self).geometry_unchanged(old(self)),
    {
        self.cursor.move_me(horiz, vert);

        if self.cursor.pos().x() >= self.pixel_width() {
            let limit = self.pixel_width();
            self.cursor.set_x(limit - 1);
        }

        if self.cursor.pos().y() >= self.pixel_height() {
            let limit = self.pixel_height();
            self.cursor.set_y(limit - 1);
        }
    }

    /// True when everything but the model is shared: geometry, fonts,
    /// capacity, and the cursor's blink state.
    pub open spec fn geometry_unchanged(&self, other: &Self) -> bool {
        &&& self.width_px_spec() == other.width_px_spec()
        &&& self.height_px_spec() == other.height_px_spec()
        &&& self.bytes_per_pixel_spec() == other.bytes_per_pixel_spec()
        &&& self.capacity_spec() == other.capacity_spec()
        &&& self.input_height_spec() == other.input_height_spec()
        &&& self.fonts_spec() == other.fonts_spec()
    }

    /// Appends one character to the pending input line, advancing the
    /// cursor column unless it already stands at the last column.
    pub fn insert_input(&mut self, value: char)
        requires
            old(self).wf(),
        ensures
            final(self).wf(),
            final(self).model() == (ConsoleModel {
                input: old(self).model().input.push(value),
                cursor_x: if old(self).model().cursor_x + 1 >= old(self).screen_cols() {
                    old(self).model().cursor_x
                } else {
                    (old(self).model().cursor_x + 1) as u16
                },
                ..old(self).model()
            }),
            final(self).geometry_unchanged(old(self)),
    {
        let dimensions = self.screen_dimensions();
        self.cursor.insert_input(value, dimensions);
    }

    /// Hands over the pending input line and returns the column to zero.
    pub fn take_input(&mut self) -> (r: Vec<char>)
        requires
            old(self).wf(),
        ensures
            final(self).wf(),
            r@ == old(self).model().input,
            final(self).model() == (ConsoleModel {
                input: Seq::<char>::empty(),
                cursor_x: 0,
                ..old(self).model()
            }),
            final(self).geometry_unchanged(old(self)),
    {
        self.cursor.take_input()
    }
}



/// How many bytes of a row pair the scroll works through: when the upper
/// row was wider, its full width (so its stale pixels get erased), otherwise
/// the lower row's width. Pure row math, independent of any framebuffer.
pub open spec fn row_copy_bytes(prev_bytes: int, curr_bytes: int) -> int {
    if prev_bytes != 0 && prev_bytes > curr_bytes {
        prev_bytes
    } else {
        curr_bytes
    }
}

/// How many bytes of its pixel row a line occupies: its character-cell
/// count times the bytes per cell column, capped at one full row. Pure row
/// math, independent of any framebuffer.
pub open spec fn occupied_row_bytes(line: Seq<CacheCell>, cell_bytes: int, row: int) -> int {
    let raw = ConsoleContainer::char_cell_count(line) * cell_bytes;
    if raw > row {
        row
    } else {
        raw
    }
}

/// One position's obligation inside `scrolled_rows`: the byte a row-pair
/// copy writes at pair `jq`, line `lnq`, byte `bq`, when that position lies
/// before the unconditional bottom fill.
pub open spec fn scroll_claim(
    pre: Seq<u8>,
    post: Seq<u8>,
    lines: Seq<Seq<CacheCell>>,
    cell_bytes: int,
    row: int,
    start: int,
    fhs: int,
    fill_edge: int,
    jq: int,
    lnq: int,
    bq: int,
) -> bool {
    let prev_w = occupied_row_bytes(lines[start + jq - 1], cell_bytes, row);
    let curr_w = occupied_row_bytes(lines[start + jq], cell_bytes, row);
    let dst = (jq - 1) * (fhs * row) + lnq * row + bq;
    let src = dst + fhs * row;
    (bq < row_copy_bytes(prev_w, curr_w) && 0 <= dst && dst < fill_edge && dst < pre.len())
        ==> post[dst] == (if prev_w != 0 && prev_w > curr_w && bq > curr_w {
        bg_fill_byte(ColorName::DefaultBackground.color_spec(), dst)
    } else if src < pre.len() {
        pre[src]
    } else {
        pre[dst]
    })
}

/// Whether `post` is `pre` scrolled up one text row for the given visible
/// lines: for each adjacent pair of visible rows, the upper text row gets
/// the lower row's pre-scroll bytes over the pair's copy width — where the
/// upper row was wider, the tail beyond the lower row's width is
/// background-filled instead, so no stale pixels smear — except where the
/// unconditional bottom-two-rows fill takes over. `cell_bytes` is the byte
/// width of one cell column, `row` the bytes per pixel row, `rows` the
/// screen height in text rows.
pub open spec fn scrolled_rows(
    pre: Seq<u8>,
    post: Seq<u8>,
    lines: Seq<Seq<CacheCell>>,
    cell_bytes: int,
    row: int,
    rows: int,
) -> bool {
    let total = lines.len() as int;
    let visible = rows - 1;
    let start = if total > visible {
        total - visible
    } else {
        0
    };
    let n = total - start;
    let fhs = (FONT_HEIGHT * FONT_SCALE) as int;
    forall|i: int, ln: int, b: int|
        #![trigger post[(i - 1) * (fhs * row) + ln * row + b]]
        ({
            let prev_w = occupied_row_bytes(lines[start + i - 1], cell_bytes, row);
            let curr_w = occupied_row_bytes(lines[start + i], cell_bytes, row);
            let dst = (i - 1) * (fhs * row) + ln * row + b;
            let src = dst + fhs * row;
            (1 <= i < n && 0 <= ln < fhs && 0 <= b < row_copy_bytes(prev_w, curr_w) && 0 <= dst
                && dst < pre.len() - 2 * (fhs * row)) ==> post[dst] == (
            if prev_w != 0 && prev_w > curr_w && b > curr_w {
                bg_fill_byte(ColorName::DefaultBackground.color_spec(), dst)
            } else if src < pre.len() {
                pre[src]
            } else {
                pre[dst]
            })
        })
}

impl ConsoleContainer {
    /// Writes one pixel in the framebuffer's blue-green-red byte order,
    /// forcing any fourth channel opaque. A pixel whose bytes would leave
    /// the buffer is clipped: the buffer is untouched.
    pub fn draw_pixel(&self, color: Color, pos: (u16, u16), buffer: &mut Vec<u8>)
        requires
            self.geometry_wf(),
        ensures
            final(buffer)@.len() == old(buffer)@.len(),
            ({
                let idx = self.pixel_index_spec(pos.0 as int, pos.1 as int);
                let bpp = self.bytes_per_pixel_spec();
                if idx + bpp < old(buffer)@.len() {
                    forall|k: int|
                        0 <= k < old(buffer)@.len() ==> final(buffer)@[k] == (if k == idx {
                            color.b
                        } else if k == idx + 1 {
                            color.g
                        } else if k == idx + 2 {
                            color.r
                        } else if idx + 3 <= k < idx + bpp {
                            0xFFu8
                        } else {
                            old(buffer)@[k]
                        })
                } else {
                    final(buffer)@ == old(buffer)@
                }
            }),
            forall|k: int|
                0 <= k < old(buffer)@.len() && !self.pixel_bytes(pos.0 as int, pos.1 as int, k)
                    ==> final(buffer)@[k] == old(buffer)@[k],
            self.pixel_painted(final(buffer)@, pos.0 as int, pos.1 as int, color),
    {
        let (x, y) = pos;
        let row = self.dim_pixel_width();

        proof {
            assert((y as int) * (row as int) <= 0xFFFF * 0xFFFF_FFFF) by (nonlinear_arith)
                requires
                    0 <= y as int <= 0xFFFF,
                    0 <= row as int <= 0xFFFF_FFFF,
            ;
            assert((x as int) * (self.bytes_per_pixel_spec()) <= 0xFFFF * 64) by (nonlinear_arith)
                requires
                    0 <= x as int <= 0xFFFF,
                    0 <= self.bytes_per_pixel_spec() <= 64,
            ;
        }

        let pixel_index: u64 = (y as u64) * (row as u64) + (x as u64) * (self.bytes_per_pixel
            as u64);

        if (buffer.len() as u64) <= pixel_index + (self.bytes_per_pixel as u64) {
            return;
        }

        let idx: usize = pixel_index as usize;
        let buffer_len = buffer.len();

        buffer.set(idx, color.b);
        buffer.set(idx + 1, color.g);
        buffer.set(idx + 2, color.r);

        if self.bytes_per_pixel > 3 {
            let mut i: usize = 3;
            while i < self.bytes_per_pixel
                invariant
                    3 <= i <= self.bytes_per_pixel,
                    self.geometry_wf(),
                    idx as int == self.pixel_index_spec(x as int, y as int),
                    idx + self.bytes_per_pixel < buffer_len,
                    buffer_len == old(buffer)@.len(),
                    buffer@.len() == old(buffer)@.len(),
                    forall|k: int|
                        0 <= k < old(buffer)@.len() ==> buffer@[k] == (if k == idx as int {
                            color.b
                        } else if k == idx + 1 {
                            color.g
                        } else if k == idx + 2 {
                            color.r
                        } else if idx + 3 <= k < idx + i {
                            0xFFu8
                        } else {
                            old(buffer)@[k]
                        }),
                decreases self.bytes_per_pixel - i,
            {
                buffer.set(idx + i, 0xFF);
                i = i + 1;
            }
        }
    }

    /// Draws a square of `scale` by `scale` pixels with its top-left corner
    /// at `pos`: every on-screen pixel of that square is painted with the
    /// color, and no byte outside the square's on-screen pixels changes.
    fn draw_scaled_pixel(&self, color: Color, scale: u16, pos: (u16, u16), buffer: &mut Vec<u8>)
        requires
            self.geometry_wf(),
        ensures
            final(buffer)@.len() == old(buffer)@.len(),
            forall|k: int|
                0 <= k < old(buffer)@.len() && !self.drawn_bytes(
                    pos.0 as int,
                    pos.1 as int,
                    scale as int,
                    scale as int,
                    k,
                ) ==> final(buffer)@[k] == old(buffer)@[k],
            forall|qx: int, qy: int|
                pos.0 <= qx < pos.0 + scale && pos.1 <= qy < pos.1 + scale && qx <= u16::MAX && qy
                    <= u16::MAX && self.on_screen(qx, qy) ==> self.pixel_painted(
                    final(buffer)@,
                    qx,
                    qy,
                    color,
                ),
    {
        let (x, y) = pos;
        let width = self.dimensions.width();
        let height = self.dimensions.height();
        let mut sy: u16 = 0;

        while sy < scale
            invariant
                self.geometry_wf(),
                width == self.width_px_spec(),
                height == self.height_px_spec(),
                sy <= scale,
                buffer@.len() == old(buffer)@.len(),
                forall|k: int|
                    0 <= k < old(buffer)@.len() && !self.drawn_bytes(
                        x as int,
                        y as int,
                        scale as int,
                        scale as int,
                        k,
                    ) ==> buffer@[k] == old(buffer)@[k],
                forall|qx: int, qy: int|
                    x <= qx < x + scale && y <= qy < y + sy && qx <= u16::MAX && qy <= u16::MAX
                        && self.on_screen(qx, qy) ==> self.pixel_painted(buffer@, qx, qy, color),
            decreases scale - sy,
        {
            let mut sx: u16 = 0;
            while sx < scale
                invariant
                    self.geometry_wf(),
                    width == self.width_px_spec(),
                    height == self.height_px_spec(),
                    sy < scale,
                    sx <= scale,
                    buffer@.len() == old(buffer)@.len(),
                    forall|k: int|
                        0 <= k < old(buffer)@.len() && !self.drawn_bytes(
                            x as int,
                            y as int,
                            scale as int,
                            scale as int,
                            k,
                        ) ==> buffer@[k] == old(buffer)@[k],
                    forall|qx: int, qy: int|
                        x <= qx < x + scale && y <= qy < y + sy && qx <= u16::MAX && qy
                            <= u16::MAX && self.on_screen(qx, qy) ==> self.pixel_painted(
                            buffer@,
                            qx,
                            qy,
                            color,
                        ),
                    forall|qx: int, qy: int|
                        x <= qx < x + sx && qy == y + sy && qx <= u16::MAX && qy <= u16::MAX
                            && self.on_screen(qx, qy) ==> self.pixel_painted(
                            buffer@,
                            qx,
                            qy,
                            color,
                        ),
                decreases scale - sx,
            {
                let in_range = x as u32 + sx as u32 <= u16::MAX as u32 && y as u32 + sy as u32
                    <= u16::MAX as u32;
                if in_range {
                    let px: u16 = x + sx;
                    let py: u16 = y + sy;
                    if (px as usize) < width && (py as usize) < height {
                        let ghost before = buffer@;
                        self.draw_pixel(color, (px, py), buffer);
                        proof {
                            assert forall|k: int|
                                0 <= k < old(buffer)@.len() && !self.drawn_bytes(
                                    x as int,
                                    y as int,
                                    scale as int,
                                    scale as int,
                                    k,
                                ) implies buffer@[k] == old(buffer)@[k] by {
                                assert(!self.pixel_bytes(px as int, py as int, k));
                                assert(buffer@[k] == before[k]);
                            }
                            assert forall|qx: int, qy: int|
                                (x <= qx < x + scale && (y <= qy < y + sy || (qy == y + sy && x
                                    <= qx < x + sx + 1)) && qx <= u16::MAX && qy <= u16::MAX
                                    && self.on_screen(qx, qy)) implies self.pixel_painted(
                                buffer@,
                                qx,
                                qy,
                                color,
                            ) by {
                                if qx == px as int && qy == py as int {
                                } else {
                                    self.lemma_pixels_disjoint(qx, qy, px as int, py as int);
                                    assert(self.pixel_painted(before, qx, qy, color));
                                    let base = self.pixel_index_spec(qx, qy);
                                    assert(base >= 0) by (nonlinear_arith)
                                        requires
                                            base == qy * self.row_bytes() + qx
                                                * self.bytes_per_pixel_spec(),
                                            qx >= 0,
                                            qy >= 0,
                                            self.row_bytes() >= 0,
                                            self.bytes_per_pixel_spec() >= 0,
                                    ;
                                    if base + self.bytes_per_pixel_spec() < buffer@.len() {
                                        assert forall|o: int|
                                            0 <= o < self.bytes_per_pixel_spec()
                                            implies #[trigger] (buffer@[base + o]) == before[base
                                            + o] by {
                                            assert(!self.pixel_bytes(
                                                px as int,
                                                py as int,
                                                base + o,
                                            ));
                                        }
                                    }
                                }
                            }
                        }
                    }
                }
                sx = sx + 1;
            }
            sy = sy + 1;
        }
    }

    /// Fills one cell with the current background color: every on-screen
    /// pixel of the cell's rectangle (the cell, one extra pixel row tall,
    /// that the cursor eraser also covers) is painted with it, and nothing
    /// outside that rectangle changes.
    pub fn clear_cell(&self, cell: (u16, u16), buffer: &mut Vec<u8>)
        requires
            self.geometry_wf(),
        ensures
            final(buffer)@.len() == old(buffer)@.len(),
            forall|k: int|
                0 <= k < old(buffer)@.len() && !self.drawn_bytes(
                    cell.0 as int * (FONT_SCALE * FONT_WIDTH) as int,
                    cell.1 as int * (FONT_SCALE * FONT_HEIGHT) as int,
                    (FONT_WIDTH * FONT_SCALE) as int,
                    ((FONT_HEIGHT + 1) * FONT_SCALE) as int,
                    k,
                ) ==> final(buffer)@[k] == old(buffer)@[k],
            forall|qx: int, qy: int|
                cell.0 as int * (FONT_SCALE * FONT_WIDTH) as int <= qx < cell.0 as int
                    * (FONT_SCALE * FONT_WIDTH) as int + (FONT_WIDTH * FONT_SCALE) as int
                    && cell.1 as int * (FONT_SCALE * FONT_HEIGHT) as int <= qy < cell.1 as int
                    * (FONT_SCALE * FONT_HEIGHT) as int + ((FONT_HEIGHT + 1) * FONT_SCALE) as int
                    && qx <= u16::MAX && qy <= u16::MAX && self.on_screen(qx, qy)
                    ==> self.pixel_painted(final(buffer)@, qx, qy, self.model().background),
    {
        let (sx, sy) = cell;

        proof {
            assert((sx as int) * (FONT_SCALE as int) * (FONT_WIDTH as int) <= 0xFFFF * 0xFFFF
                * 0xFFFF) by (nonlinear_arith)
                requires
                    0 <= sx as int <= 0xFFFF,
                    0 <= FONT_SCALE as int <= 0xFFFF,
                    0 <= FONT_WIDTH as int <= 0xFFFF,
            ;
            assert((sy as int) * (FONT_SCALE as int) * (FONT_HEIGHT as int) <= 0xFFFF * 0xFFFF
                * 0xFFFF) by (nonlinear_arith)
                requires
                    0 <= sy as int <= 0xFFFF,
                    0 <= FONT_SCALE as int <= 0xFFFF,
                    0 <= FONT_HEIGHT as int <= 0xFFFF,
            ;
        }
        let cell_x: u64 = (sx as u64) * (FONT_SCALE as u64) * (FONT_WIDTH as u64);
        let cell_y: u64 = (sy as u64) * (FONT_SCALE as u64) * (FONT_HEIGHT as u64);

        let ghost rx = sx as int * (FONT_SCALE * FONT_WIDTH) as int;
        let ghost ry = sy as int * (FONT_SCALE * FONT_HEIGHT) as int;
        let ghost rw = (FONT_WIDTH * FONT_SCALE) as int;
        let ghost rh = ((FONT_HEIGHT + 1) * FONT_SCALE) as int;
        let ghost fsi = FONT_SCALE as int;

        proof {
            assert(cell_x as int == rx && cell_y as int == ry) by (nonlinear_arith)
                requires
                    cell_x as int == (sx as int) * (FONT_SCALE as int) * (FONT_WIDTH as int),
                    cell_y as int == (sy as int) * (FONT_SCALE as int) * (FONT_HEIGHT as int),
                    rx == sx as int * ((FONT_SCALE as int) * (FONT_WIDTH as int)),
                    ry == sy as int * ((FONT_SCALE as int) * (FONT_HEIGHT as int)),
            ;
            assert(rw == (FONT_WIDTH as int) * fsi && rh == ((FONT_HEIGHT as int) + 1) * fsi)
                by (nonlinear_arith)
                requires
                    rw == (FONT_WIDTH as int) * (FONT_SCALE as int),
                    rh == ((FONT_HEIGHT as int) + 1) * (FONT_SCALE as int),
                    fsi == FONT_SCALE as int,
            ;
        }

        let mut y: u16 = 0;
        while y < FONT_HEIGHT + 1
            invariant
                self.geometry_wf(),
                y <= FONT_HEIGHT + 1,
                buffer@.len() == old(buffer)@.len(),
                cell_x <= 0xFFFF * 0xFFFF * 0xFFFF,
                cell_y <= 0xFFFF * 0xFFFF * 0xFFFF,
                cell_x as int == rx,
                cell_y as int == ry,
                fsi == FONT_SCALE as int,
                rw == (FONT_WIDTH as int) * fsi,
                rh == ((FONT_HEIGHT as int) + 1) * fsi,
                forall|k: int|
                    0 <= k < old(buffer)@.len() && !self.drawn_bytes(rx, ry, rw, rh, k)
                        ==> buffer@[k] == old(buffer)@[k],
                forall|qx: int, qy: int|
                    rx <= qx < rx + rw && ry <= qy < ry + y * fsi && qx <= u16::MAX && qy
                        <= u16::MAX && self.on_screen(qx, qy) ==> self.pixel_painted(
                        buffer@,
                        qx,
                        qy,
                        self.text_style.background,
                    ),
            decreases FONT_HEIGHT + 1 - y,
        {
            let mut x: u16 = 0;
            while x < FONT_WIDTH
                invariant
                    self.geometry_wf(),
                    y < FONT_HEIGHT + 1,
                    x <= FONT_WIDTH,
                    buffer@.len() == old(buffer)@.len(),
                    cell_x <= 0xFFFF * 0xFFFF * 0xFFFF,
                    cell_y <= 0xFFFF * 0xFFFF * 0xFFFF,
                    cell_x as int == rx,
                    cell_y as int == ry,
                    fsi == FONT_SCALE as int,
                    rw == (FONT_WIDTH as int) * fsi,
                    rh == ((FONT_HEIGHT as int) + 1) * fsi,
                    forall|k: int|
                        0 <= k < old(buffer)@.len() && !self.drawn_bytes(rx, ry, rw, rh, k)
                            ==> buffer@[k] == old(buffer)@[k],
                    forall|qx: int, qy: int|
                        rx <= qx < rx + rw && ry <= qy < ry + y * fsi && qx <= u16::MAX && qy
                            <= u16::MAX && self.on_screen(qx, qy) ==> self.pixel_painted(
                            buffer@,
                            qx,
                            qy,
                            self.text_style.background,
                        ),
                    forall|qx: int, qy: int|
                        rx <= qx < rx + x * fsi && ry + y * fsi <= qy < ry + (y + 1) * fsi && qx
                            <= u16::MAX && qy <= u16::MAX && self.on_screen(qx, qy)
                            ==> self.pixel_painted(
                            buffer@,
                            qx,
                            qy,
                            self.text_style.background,
                        ),
                decreases FONT_WIDTH - x,
            {
                proof {
                    assert((x as int) * fsi >= 0 && (x as int + 1) * fsi <= rw && (x as int) * fsi
                        + fsi == (x as int + 1) * fsi) by (nonlinear_arith)
                        requires
                            0 <= x as int,
                            x as int + 1 <= FONT_WIDTH as int,
                            0 <= fsi,
                            rw == (FONT_WIDTH as int) * fsi,
                    ;
                    assert((y as int) * fsi >= 0 && (y as int + 1) * fsi <= rh && (y as int) * fsi
                        + fsi == (y as int + 1) * fsi) by (nonlinear_arith)
                        requires
                            0 <= y as int,
                            y as int + 1 <= FONT_HEIGHT as int + 1,
                            0 <= fsi,
                            rh == ((FONT_HEIGHT as int) + 1) * fsi,
                    ;
                    assert((x as int) * (FONT_SCALE as int) <= 0xFFFF * 0xFFFF)
                        by (nonlinear_arith)
                        requires
                            0 <= x as int <= 0xFFFF,
                            0 <= FONT_SCALE as int <= 0xFFFF,
                    ;
                    assert((y as int) * (FONT_SCALE as int) <= 0xFFFF * 0xFFFF)
                        by (nonlinear_arith)
                        requires
                            0 <= y as int <= 0xFFFF,
                            0 <= FONT_SCALE as int <= 0xFFFF,
                    ;
                }
                let px64: u64 = cell_x + (x as u64) * (FONT_SCALE as u64);
                let py64: u64 = cell_y + (y as u64) * (FONT_SCALE as u64);

                if px64 <= u16::MAX as u64 && py64 <= u16::MAX as u64 {
                    let px = px64 as u16;
                    let py = py64 as u16;
                    let ghost before = buffer@;
                    self.draw_scaled_pixel(
                        self.text_style.background,
                        FONT_SCALE,
                        (px, py),
                        buffer,
                    );
                    proof {
                        // Frame: everything this block wrote lies in the
                        // cell's rectangle.
                        assert forall|k: int|
                            0 <= k < old(buffer)@.len() && !self.drawn_bytes(rx, ry, rw, rh, k)
                            implies buffer@[k] == old(buffer)@[k] by {
                            if self.drawn_bytes(
                                px as int,
                                py as int,
                                FONT_SCALE as int,
                                FONT_SCALE as int,
                                k,
                            ) {
                                let (wx, wy) = choose|wx: int, wy: int|
                                    px as int <= wx < px as int + FONT_SCALE as int && py as int
                                        <= wy < py as int + FONT_SCALE as int && wx <= u16::MAX
                                        && wy <= u16::MAX && self.on_screen(wx, wy)
                                        && #[trigger] self.pixel_bytes(wx, wy, k);
                                assert(rx <= wx < rx + rw && ry <= wy < ry + rh);
                                assert(self.drawn_bytes(rx, ry, rw, rh, k));
                            } else {
                                assert(buffer@[k] == before[k]);
                            }
                        }
                        // The block's own square is painted; everything
                        // painted before stays painted.
                        assert forall|qx: int, qy: int|
                            (rx <= qx < rx + rw && ry <= qy < ry + y * fsi && qx <= u16::MAX && qy
                                <= u16::MAX && self.on_screen(qx, qy)) implies self.pixel_painted(
                            buffer@,
                            qx,
                            qy,
                            self.text_style.background,
                        ) by {
                            self.lemma_paint_preserves_outside(
                                before,
                                buffer@,
                                px as int,
                                py as int,
                                FONT_SCALE as int,
                                FONT_SCALE as int,
                                qx,
                                qy,
                                self.text_style.background,
                            );
                        }
                        assert forall|qx: int, qy: int|
                            (rx <= qx < rx + (x + 1) * fsi && ry + y * fsi <= qy < ry + (y + 1)
                                * fsi && qx <= u16::MAX && qy <= u16::MAX && self.on_screen(
                                qx,
                                qy,
                            )) implies self.pixel_painted(
                            buffer@,
                            qx,
                            qy,
                            self.text_style.background,
                        ) by {
                            if qx < rx + x * fsi {
                                self.lemma_paint_preserves_outside(
                                    before,
                                    buffer@,
                                    px as int,
                                    py as int,
                                    FONT_SCALE as int,
                                    FONT_SCALE as int,
                                    qx,
                                    qy,
                                    self.text_style.background,
                                );
                            }
                        }
                    }
                } else {
                    proof {
                        assert forall|qx: int, qy: int|
                            (rx <= qx < rx + (x + 1) * fsi && ry + y * fsi <= qy < ry + (y + 1)
                                * fsi && qx <= u16::MAX && qy <= u16::MAX && self.on_screen(
                                qx,
                                qy,
                            )) implies self.pixel_painted(
                            buffer@,
                            qx,
                            qy,
                            self.text_style.background,
                        ) by {
                            if qx >= rx + x * fsi {
                                assert(qx >= px64 as int || qy >= py64 as int);
                                assert(false);
                            }
                        }
                    }
                }
                x = x + 1;
            }
            y = y + 1;
        }

        proof {
            assert forall|qx: int, qy: int|
                (rx <= qx < rx + rw && ry <= qy < ry + rh && qx <= u16::MAX && qy <= u16::MAX
                    && self.on_screen(qx, qy)) implies self.pixel_painted(
                buffer@,
                qx,
                qy,
                self.text_style.background,
            ) by {
                assert(ry + (FONT_HEIGHT as int + 1) * fsi == ry + rh);
            }
        }
    }

    /// Blits one glyph into a cell: each bitmap bit becomes a scaled square
    /// of the foreground color where set and the background where clear,
    /// bottom-aligned in the cell and shifted by the glyph's offset, exactly
    /// as `glyph_blitted` states; nothing outside the glyph's squares
    /// changes. A character without a glyph draws nothing; squares that
    /// leave the screen or the coordinate space are clipped.
    pub fn draw_glyph_in_cell(&self, cell: (u16, u16), value: char, buffer: &mut Vec<u8>)
        requires
            self.geometry_wf(),
        ensures
            final(buffer)@.len() == old(buffer)@.len(),
            (value as int) < self.fonts_spec().len() ==> {
                &&& forall|k: int|
                    0 <= k < old(buffer)@.len() && !self.glyph_drawn_bytes(
                        self.fonts_spec()[value as int],
                        cell.0 as int,
                        cell.1 as int,
                        k,
                    ) ==> final(buffer)@[k] == old(buffer)@[k]
                &&& self.glyph_blitted(
                    final(buffer)@,
                    self.fonts_spec()[value as int],
                    cell.0 as int,
                    cell.1 as int,
                    (TextStyle {
                        foreground: self.model().foreground,
                        background: self.model().background,
                    }),
                )
            },
            (value as int) >= self.fonts_spec().len() ==> final(buffer)@ == old(buffer)@,
    {
        let (sx, sy) = cell;

        let glyph_index = value as usize;
        if glyph_index >= self.fonts.len() {
            return;
        }

        let ghost g = self.fonts_spec()[glyph_index as int];
        let ghost style = TextStyle {
            foreground: self.model().foreground,
            background: self.model().background,
        };
        let ghost fsi = FONT_SCALE as int;

        let glyph_width = self.fonts[glyph_index].width;
        let glyph_height = self.fonts[glyph_index].height;
        let glyph_off_x = self.fonts[glyph_index].off_x;
        let glyph_off_y = self.fonts[glyph_index].off_y;

        // An offset beyond any coordinate the screen can hold pushes every
        // square out of the coordinate space: the whole glyph is clipped.
        if glyph_off_x > 0x7FFF_FFFF || glyph_off_x < -0x7FFF_FFFF || glyph_off_y > 0x7FFF_FFFF
            || glyph_off_y < -0x7FFF_FFFF {
            proof {
                assert forall|gx: int, gy: int|
                    #![trigger Self::glyph_pixel_x(g, sx as int, gx), Self::glyph_pixel_y(g, sy as int, gy)]
                    0 <= gx < g.width && 0 <= gy < g.height implies !(0 <= Self::glyph_pixel_x(
                    g,
                    sx as int,
                    gx,
                ) <= u16::MAX && 0 <= Self::glyph_pixel_y(g, sy as int, gy) <= u16::MAX) by {
                    self.lemma_wild_offset_out_of_range(g, sx as int, sy as int, gx, gy);
                }
                assert forall|k: int|
                    0 <= k < buffer@.len() && self.glyph_drawn_bytes(g, sx as int, sy as int, k)
                    implies false by {
                    let (gx, gy) = choose|gx: int, gy: int|
                        0 <= gx < g.width && 0 <= gy < g.height && #[trigger] self.drawn_bytes(
                            Self::glyph_pixel_x(g, sx as int, gx),
                            Self::glyph_pixel_y(g, sy as int, gy),
                            fsi,
                            fsi,
                            k,
                        );
                    self.lemma_wild_offset_out_of_range(g, sx as int, sy as int, gx, gy);
                    let (wx, wy) = choose|wx: int, wy: int|
                        Self::glyph_pixel_x(g, sx as int, gx) <= wx < Self::glyph_pixel_x(
                            g,
                            sx as int,
                            gx,
                        ) + fsi && Self::glyph_pixel_y(g, sy as int, gy) <= wy
                            < Self::glyph_pixel_y(g, sy as int, gy) + fsi && wx <= u16::MAX && wy
                            <= u16::MAX && self.on_screen(wx, wy) && #[trigger] self.pixel_bytes(
                            wx,
                            wy,
                            k,
                        );
                }
            }
            return;
        }

        let off_x: i64 = glyph_off_x as i64;
        let off_y: i64 = glyph_off_y as i64;

        // Bottom-align: the bitmap starts at the top left, the cell's
        // origin sits at its bottom left.
        let taller: u16 = if FONT_HEIGHT > glyph_height {
            FONT_HEIGHT
        } else {
            glyph_height
        };
        proof {
            assert((FONT_SCALE as int) * ((taller - glyph_height) as int) <= 0xFFFF * 0xFFFF)
                by (nonlinear_arith)
                requires
                    0 <= FONT_SCALE as int <= 0xFFFF,
                    0 <= (taller - glyph_height) as int <= 0xFFFF,
            ;
            assert((sx as int) * (FONT_SCALE as int) * (FONT_WIDTH as int) <= 0xFFFF * 0xFFFF
                * 0xFFFF) by (nonlinear_arith)
                requires
                    0 <= sx as int <= 0xFFFF,
                    0 <= FONT_SCALE as int <= 0xFFFF,
                    0 <= FONT_WIDTH as int <= 0xFFFF,
            ;
            assert((sy as int) * (FONT_SCALE as int) * (FONT_HEIGHT as int) <= 0xFFFF * 0xFFFF
                * 0xFFFF) by (nonlinear_arith)
                requires
                    0 <= sy as int <= 0xFFFF,
                    0 <= FONT_SCALE as int <= 0xFFFF,
                    0 <= FONT_HEIGHT as int <= 0xFFFF,
            ;
        }
        let cell_offset_y: u64 = (FONT_SCALE as u64) * ((taller - glyph_height) as u64);

        let cell_x: u64 = (sx as u64) * (FONT_SCALE as u64) * (FONT_WIDTH as u64);
        let cell_y: u64 = (sy as u64) * (FONT_SCALE as u64) * (FONT_HEIGHT as u64);

        proof {
            assert(cell_x as int == Self::cell_rect_x(sx as int) && cell_y as int
                == Self::cell_rect_y(sy as int)) by (nonlinear_arith)
                requires
                    cell_x as int == (sx as int) * (FONT_SCALE as int) * (FONT_WIDTH as int),
                    cell_y as int == (sy as int) * (FONT_SCALE as int) * (FONT_HEIGHT as int),
                    Self::cell_rect_x(sx as int) == sx as int * ((FONT_SCALE as int) * (FONT_WIDTH
                        as int)),
                    Self::cell_rect_y(sy as int) == sy as int * ((FONT_SCALE as int) * (
                    FONT_HEIGHT as int)),
            ;
        }

        let mut y: u16 = 0;
        while y < glyph_height
            invariant
                self.geometry_wf(),
                y <= glyph_height,
                buffer@.len() == old(buffer)@.len(),
                g == self.fonts_spec()[glyph_index as int],
                glyph_index < self.fonts_spec().len(),
                glyph_width == g.width,
                glyph_height == g.height,
                off_x as int == g.off_x && off_y as int == g.off_y,
                -0x7FFF_FFFF <= off_x <= 0x7FFF_FFFF,
                -0x7FFF_FFFF <= off_y <= 0x7FFF_FFFF,
                fsi == FONT_SCALE as int,
                style == (TextStyle {
                    foreground: self.model().foreground,
                    background: self.model().background,
                }),
                cell_x as int == Self::cell_rect_x(sx as int),
                cell_y as int == Self::cell_rect_y(sy as int),
                cell_x <= 0xFFFF * 0xFFFF * 0xFFFF,
                cell_y <= 0xFFFF * 0xFFFF * 0xFFFF,
                cell_offset_y <= 0xFFFF * 0xFFFF,
                cell_offset_y as int == fsi * (if FONT_HEIGHT as int >= g.height {
                    FONT_HEIGHT as int - g.height
                } else {
                    0int
                }),
                forall|k: int|
                    0 <= k < old(buffer)@.len() && !self.glyph_drawn_bytes(
                        g,
                        sx as int,
                        sy as int,
                        k,
                    ) ==> buffer@[k] == old(buffer)@[k],
                forall|gx: int, gy: int, qx: int, qy: int|
                    #![trigger Self::glyph_pixel_x(g, sx as int, gx), Self::glyph_pixel_y(g, sy as int, gy), self.pixel_index_spec(qx, qy)]
                    0 <= gx < g.width && 0 <= gy < y && 0 <= Self::glyph_pixel_x(g, sx as int, gx)
                        <= u16::MAX && 0 <= Self::glyph_pixel_y(g, sy as int, gy) <= u16::MAX
                        && Self::glyph_pixel_x(g, sx as int, gx) <= qx < Self::glyph_pixel_x(
                        g,
                        sx as int,
                        gx,
                    ) + fsi && Self::glyph_pixel_y(g, sy as int, gy) <= qy < Self::glyph_pixel_y(
                        g,
                        sy as int,
                        gy,
                    ) + fsi && qx <= u16::MAX && qy <= u16::MAX && self.on_screen(qx, qy)
                        ==> self.pixel_painted(
                        buffer@,
                        qx,
                        qy,
                        if Self::glyph_bit(g, gx, gy) {
                            style.foreground
                        } else {
                            style.background
                        },
                    ),
            decreases glyph_height - y,
        {
            let mut x: u16 = 0;
            while x < glyph_width
                invariant
                    self.geometry_wf(),
                    y < glyph_height,
                    x <= glyph_width,
                    buffer@.len() == old(buffer)@.len(),
                    g == self.fonts_spec()[glyph_index as int],
                    glyph_index < self.fonts_spec().len(),
                    glyph_width == g.width,
                    glyph_height == g.height,
                    off_x as int == g.off_x && off_y as int == g.off_y,
                    -0x7FFF_FFFF <= off_x <= 0x7FFF_FFFF,
                    -0x7FFF_FFFF <= off_y <= 0x7FFF_FFFF,
                    fsi == FONT_SCALE as int,
                    style == (TextStyle {
                        foreground: self.model().foreground,
                        background: self.model().background,
                    }),
                    cell_x as int == Self::cell_rect_x(sx as int),
                    cell_y as int == Self::cell_rect_y(sy as int),
                    cell_x <= 0xFFFF * 0xFFFF * 0xFFFF,
                    cell_y <= 0xFFFF * 0xFFFF * 0xFFFF,
                    cell_offset_y <= 0xFFFF * 0xFFFF,
                    cell_offset_y as int == fsi * (if FONT_HEIGHT as int >= g.height {
                        FONT_HEIGHT as int - g.height
                    } else {
                        0int
                    }),
                    forall|k: int|
                        0 <= k < old(buffer)@.len() && !self.glyph_drawn_bytes(
                            g,
                            sx as int,
                            sy as int,
                            k,
                        ) ==> buffer@[k] == old(buffer)@[k],
                    forall|gx: int, gy: int, qx: int, qy: int|
                        #![trigger Self::glyph_pixel_x(g, sx as int, gx), Self::glyph_pixel_y(g, sy as int, gy), self.pixel_index_spec(qx, qy)]
                        0 <= gx < g.width && 0 <= gy < g.height && (gy < y || (gy == y && gx < x))
                            && 0 <= Self::glyph_pixel_x(g, sx as int, gx) <= u16::MAX && 0
                            <= Self::glyph_pixel_y(g, sy as int, gy) <= u16::MAX
                            && Self::glyph_pixel_x(g, sx as int, gx) <= qx < Self::glyph_pixel_x(
                            g,
                            sx as int,
                            gx,
                        ) + fsi && Self::glyph_pixel_y(g, sy as int, gy) <= qy
                            < Self::glyph_pixel_y(g, sy as int, gy) + fsi && qx <= u16::MAX && qy
                            <= u16::MAX && self.on_screen(qx, qy) ==> self.pixel_painted(
                            buffer@,
                            qx,
                            qy,
                            if Self::glyph_bit(g, gx, gy) {
                                style.foreground
                            } else {
                                style.background
                            },
                        ),
                decreases glyph_width - x,
            {
                proof {
                    assert((y as int) * (glyph_width as int) <= 0xFFFF * 0xFFFF)
                        by (nonlinear_arith)
                        requires
                            0 <= y as int <= 0xFFFF,
                            0 <= glyph_width as int <= 0xFFFF,
                    ;
                    assert((x as int) * fsi <= 0xFFFF * 0xFFFF && (x as int) * fsi >= 0)
                        by (nonlinear_arith)
                        requires
                            0 <= x as int <= 0xFFFF,
                            0 <= fsi <= 0xFFFF,
                    ;
                    assert((y as int) * fsi <= 0xFFFF * 0xFFFF && (y as int) * fsi >= 0)
                        by (nonlinear_arith)
                        requires
                            0 <= y as int <= 0xFFFF,
                            0 <= fsi <= 0xFFFF,
                    ;
                    assert(fsi * (off_x as int) <= 0xFFFF * 0x7FFF_FFFF && fsi * (off_x as int)
                        >= -(0xFFFF * 0x7FFF_FFFF)) by (nonlinear_arith)
                        requires
                            0 <= fsi <= 0xFFFF,
                            -0x7FFF_FFFF <= off_x as int <= 0x7FFF_FFFF,
                    ;
                    assert(fsi * (off_y as int) <= 0xFFFF * 0x7FFF_FFFF && fsi * (off_y as int)
                        >= -(0xFFFF * 0x7FFF_FFFF)) by (nonlinear_arith)
                        requires
                            0 <= fsi <= 0xFFFF,
                            -0x7FFF_FFFF <= off_y as int <= 0x7FFF_FFFF,
                    ;
                }

                let bit_index: u64 = (y as u64) * (glyph_width as u64) + (x as u64);
                let fg_pixel: bool = if bit_index < self.fonts[glyph_index].display.len() as u64 {
                    self.fonts[glyph_index].display[bit_index as usize]
                } else {
                    false
                };
                proof {
                    assert(fg_pixel == Self::glyph_bit(g, x as int, y as int));
                }

                let draw_x: i64 = cell_x as i64 + (x as i64) * (FONT_SCALE as i64) + (FONT_SCALE
                    as i64) * off_x;
                let draw_y: i64 = cell_y as i64 + (y as i64) * (FONT_SCALE as i64) + cell_offset_y
                    as i64 - (FONT_SCALE as i64) * off_y;

                let ghost gpx = Self::glyph_pixel_x(g, sx as int, x as int);
                let ghost gpy = Self::glyph_pixel_y(g, sy as int, y as int);
                proof {
                    assert(draw_x as int == gpx && draw_y as int == gpy);
                }

                if 0 <= draw_x && draw_x <= u16::MAX as i64 && 0 <= draw_y && draw_y <= u16::MAX
                    as i64 {
                    let color = if fg_pixel {
                        self.text_style.foreground
                    } else {
                        self.text_style.background
                    };
                    let ghost before = buffer@;
                    self.draw_scaled_pixel(
                        color,
                        FONT_SCALE,
                        (draw_x as u16, draw_y as u16),
                        buffer,
                    );
                    proof {
                        assert forall|k: int|
                            0 <= k < old(buffer)@.len() && !self.glyph_drawn_bytes(
                                g,
                                sx as int,
                                sy as int,
                                k,
                            ) implies buffer@[k] == old(buffer)@[k] by {
                            if self.drawn_bytes(gpx, gpy, fsi, fsi, k) {
                                assert(self.glyph_drawn_bytes(g, sx as int, sy as int, k));
                            } else {
                                assert(buffer@[k] == before[k]);
                            }
                        }
                        assert forall|gx: int, gy: int, qx: int, qy: int|
                            #![trigger Self::glyph_pixel_x(g, sx as int, gx), Self::glyph_pixel_y(g, sy as int, gy), self.pixel_index_spec(qx, qy)]
                            (0 <= gx < g.width && 0 <= gy < g.height && (gy < y || (gy == y && gx
                                < x + 1)) && 0 <= Self::glyph_pixel_x(g, sx as int, gx)
                                <= u16::MAX && 0 <= Self::glyph_pixel_y(g, sy as int, gy)
                                <= u16::MAX && Self::glyph_pixel_x(g, sx as int, gx) <= qx
                                < Self::glyph_pixel_x(g, sx as int, gx) + fsi
                                && Self::glyph_pixel_y(g, sy as int, gy) <= qy
                                < Self::glyph_pixel_y(g, sy as int, gy) + fsi && qx <= u16::MAX
                                && qy <= u16::MAX && self.on_screen(qx, qy))
                            implies self.pixel_painted(
                            buffer@,
                            qx,
                            qy,
                            if Self::glyph_bit(g, gx, gy) {
                                style.foreground
                            } else {
                                style.background
                            },
                        ) by {
                            if gx == x as int && gy == y as int {
                            } else {
                                if gx != x as int {
                                    assert(Self::glyph_pixel_x(g, sx as int, gx) + fsi <= gpx
                                        || gpx + fsi <= Self::glyph_pixel_x(g, sx as int, gx))
                                        by (nonlinear_arith)
                                        requires
                                            gx != x as int,
                                            fsi >= 0,
                                            Self::glyph_pixel_x(g, sx as int, gx) == Self::cell_rect_x(
                                                sx as int,
                                            ) + gx * fsi + fsi * g.off_x,
                                            gpx == Self::cell_rect_x(sx as int) + (x as int) * fsi
                                                + fsi * g.off_x,
                                    ;
                                } else {
                                    assert(Self::glyph_pixel_y(g, sy as int, gy) + fsi <= gpy
                                        || gpy + fsi <= Self::glyph_pixel_y(g, sy as int, gy))
                                        by (nonlinear_arith)
                                        requires
                                            gy != y as int,
                                            fsi >= 0,
                                            Self::glyph_pixel_y(g, sy as int, gy) == Self::cell_rect_y(
                                                sy as int,
                                            ) + gy * fsi + fsi * (
                                            if FONT_HEIGHT as int >= g.height {
                                                FONT_HEIGHT as int - g.height
                                            } else {
                                                0int
                                            }) - fsi * g.off_y,
                                            gpy == Self::cell_rect_y(sy as int) + (y as int) * fsi
                                                + fsi * (if FONT_HEIGHT as int >= g.height {
                                                FONT_HEIGHT as int - g.height
                                            } else {
                                                0int
                                            }) - fsi * g.off_y,
                                    ;
                                }
                                self.lemma_paint_preserves_outside(
                                    before,
                                    buffer@,
                                    gpx,
                                    gpy,
                                    fsi,
                                    fsi,
                                    qx,
                                    qy,
                                    if Self::glyph_bit(g, gx, gy) {
                                        style.foreground
                                    } else {
                                        style.background
                                    },
                                );
                            }
                        }
                    }
                } else {
                    proof {
                        assert(!(0 <= gpx <= u16::MAX && 0 <= gpy <= u16::MAX));
                    }
                }

                x = x + 1;
            }
            y = y + 1;
        }
    }

    /// Fills the cells of the cursor's line from column zero through the
    /// cursor's column with the background color: every on-screen pixel of
    /// that band of cells is painted, and nothing outside the band changes.
    pub fn clear_cursor_line(&self, buffer: &mut Vec<u8>)
        requires
            self.geometry_wf(),
        ensures
            final(buffer)@.len() == old(buffer)@.len(),
            forall|k: int|
                0 <= k < old(buffer)@.len() && !self.drawn_bytes(
                    0,
                    self.model().cursor_y as int * (FONT_SCALE * FONT_HEIGHT) as int,
                    (self.model().cursor_x + 1) as int * (FONT_SCALE * FONT_WIDTH) as int,
                    ((FONT_HEIGHT + 1) * FONT_SCALE) as int,
                    k,
                ) ==> final(buffer)@[k] == old(buffer)@[k],
            forall|qx: int, qy: int|
                0 <= qx < (self.model().cursor_x + 1) as int * (FONT_SCALE * FONT_WIDTH) as int
                    && self.model().cursor_y as int * (FONT_SCALE * FONT_HEIGHT) as int <= qy
                    < self.model().cursor_y as int * (FONT_SCALE * FONT_HEIGHT) as int + ((
                FONT_HEIGHT + 1) * FONT_SCALE) as int && qx <= u16::MAX && qy <= u16::MAX
                    && self.on_screen(qx, qy) ==> self.pixel_painted(
                    final(buffer)@,
                    qx,
                    qy,
                    self.model().background,
                ),
    {
        let pos = self.cursor_pos();
        let y = pos.1;
        let last = pos.0;

        let ghost ry = self.model().cursor_y as int * (FONT_SCALE * FONT_HEIGHT) as int;
        let ghost band_w = (self.model().cursor_x + 1) as int * (FONT_SCALE * FONT_WIDTH) as int;
        let ghost rh = ((FONT_HEIGHT + 1) * FONT_SCALE) as int;
        let ghost cw = (FONT_WIDTH * FONT_SCALE) as int;

        let mut i: u16 = 0;
        loop
            invariant_except_break
                i <= last,
            invariant
                self.geometry_wf(),
                y == self.model().cursor_y,
                last == self.model().cursor_x,
                ry == self.model().cursor_y as int * (FONT_SCALE * FONT_HEIGHT) as int,
                band_w == (self.model().cursor_x + 1) as int * (FONT_SCALE * FONT_WIDTH) as int,
                rh == ((FONT_HEIGHT + 1) * FONT_SCALE) as int,
                cw == (FONT_WIDTH * FONT_SCALE) as int,
                buffer@.len() == old(buffer)@.len(),
                forall|k: int|
                    0 <= k < old(buffer)@.len() && !self.drawn_bytes(0, ry, band_w, rh, k)
                        ==> buffer@[k] == old(buffer)@[k],
                forall|qx: int, qy: int|
                    0 <= qx < i as int * cw && ry <= qy < ry + rh && qx <= u16::MAX && qy
                        <= u16::MAX && self.on_screen(qx, qy) ==> self.pixel_painted(
                        buffer@,
                        qx,
                        qy,
                        self.model().background,
                    ),
            ensures
                buffer@.len() == old(buffer)@.len(),
                forall|k: int|
                    0 <= k < old(buffer)@.len() && !self.drawn_bytes(0, ry, band_w, rh, k)
                        ==> buffer@[k] == old(buffer)@[k],
                forall|qx: int, qy: int|
                    0 <= qx < band_w && ry <= qy < ry + rh && qx <= u16::MAX && qy <= u16::MAX
                        && self.on_screen(qx, qy) ==> self.pixel_painted(
                        buffer@,
                        qx,
                        qy,
                        self.model().background,
                    ),
            decreases last - i,
        {
            proof {
                assert(i as int * cw >= 0 && (i as int + 1) * cw <= band_w && i as int * cw + cw
                    == (i as int + 1) * cw) by (nonlinear_arith)
                    requires
                        0 <= i as int,
                        i as int + 1 <= last as int + 1,
                        0 <= cw,
                        band_w == (last as int + 1) * cw,
                ;
            }
            let ghost before = buffer@;
            self.clear_cell((i, y), buffer);
            proof {
                let cx = i as int * cw;
                // Frame: the cell lies inside the band.
                assert forall|k: int|
                    0 <= k < old(buffer)@.len() && !self.drawn_bytes(0, ry, band_w, rh, k)
                    implies buffer@[k] == old(buffer)@[k] by {
                    if self.drawn_bytes(cx, ry, cw, rh, k) {
                        let (wx, wy) = choose|wx: int, wy: int|
                            cx <= wx < cx + cw && ry <= wy < ry + rh && wx <= u16::MAX && wy
                                <= u16::MAX && self.on_screen(wx, wy)
                                && #[trigger] self.pixel_bytes(wx, wy, k);
                        assert(0 <= wx < band_w);
                        assert(self.drawn_bytes(0, ry, band_w, rh, k));
                    } else {
                        assert(buffer@[k] == before[k]);
                    }
                }
                // The cell is painted; earlier cells stay painted.
                assert forall|qx: int, qy: int|
                    (0 <= qx < (i as int + 1) * cw && ry <= qy < ry + rh && qx <= u16::MAX && qy
                        <= u16::MAX && self.on_screen(qx, qy)) implies self.pixel_painted(
                    buffer@,
                    qx,
                    qy,
                    self.model().background,
                ) by {
                    if qx < cx {
                        self.lemma_paint_preserves_outside(
                            before,
                            buffer@,
                            cx,
                            ry,
                            cw,
                            rh,
                            qx,
                            qy,
                            self.model().background,
                        );
                    }
                }
            }
            if i == last {
                break;
            }
            i = i + 1;
        }
    }

    /// Fills the cursor's own cell with the background color: its on-screen
    /// pixels are painted, and nothing outside that cell's rectangle
    /// changes.
    pub fn clear_current_cell(&self, buffer: &mut Vec<u8>)
        requires
            self.geometry_wf(),
        ensures
            final(buffer)@.len() == old(buffer)@.len(),
            forall|k: int|
                0 <= k < old(buffer)@.len() && !self.drawn_bytes(
                    self.model().cursor_x as int * (FONT_SCALE * FONT_WIDTH) as int,
                    self.model().cursor_y as int * (FONT_SCALE * FONT_HEIGHT) as int,
                    (FONT_WIDTH * FONT_SCALE) as int,
                    ((FONT_HEIGHT + 1) * FONT_SCALE) as int,
                    k,
                ) ==> final(buffer)@[k] == old(buffer)@[k],
            forall|qx: int, qy: int|
                self.model().cursor_x as int * (FONT_SCALE * FONT_WIDTH) as int <= qx
                    < self.model().cursor_x as int * (FONT_SCALE * FONT_WIDTH) as int + (
                FONT_WIDTH * FONT_SCALE) as int && self.model().cursor_y as int * (FONT_SCALE
                    * FONT_HEIGHT) as int <= qy < self.model().cursor_y as int * (FONT_SCALE
                    * FONT_HEIGHT) as int + ((FONT_HEIGHT + 1) * FONT_SCALE) as int && qx
                    <= u16::MAX && qy <= u16::MAX && self.on_screen(qx, qy)
                    ==> self.pixel_painted(final(buffer)@, qx, qy, self.model().background),
    {
        let pos = self.cursor_pos();
        self.clear_cell(pos, buffer);
    }

    /// Draws a glyph at the cursor's own cell, exactly as
    /// `draw_glyph_in_cell` does there.
    pub fn draw_glyph_in_current_cell(&self, value: char, buffer: &mut Vec<u8>)
        requires
            self.geometry_wf(),
        ensures
            final(buffer)@.len() == old(buffer)@.len(),
            (value as int) < self.fonts_spec().len() ==> {
                &&& forall|k: int|
                    0 <= k < old(buffer)@.len() && !self.glyph_drawn_bytes(
                        self.fonts_spec()[value as int],
                        self.model().cursor_x as int,
                        self.model().cursor_y as int,
                        k,
                    ) ==> final(buffer)@[k] == old(buffer)@[k]
                &&& self.glyph_blitted(
                    final(buffer)@,
                    self.fonts_spec()[value as int],
                    self.model().cursor_x as int,
                    self.model().cursor_y as int,
                    (TextStyle {
                        foreground: self.model().foreground,
                        background: self.model().background,
                    }),
                )
            },
            (value as int) >= self.fonts_spec().len() ==> final(buffer)@ == old(buffer)@,
    {
        let pos = self.cursor_pos();
        self.draw_glyph_in_cell(pos, value, buffer);
    }

    /// The cursor's cell coordinates.
    pub fn cursor_pos(&self) -> (r: (u16, u16))
        ensures
            r.0 == self.model().cursor_x,
            r.1 == self.model().cursor_y,
    {
        let pos = self.cursor.pos();
        (pos.x(), pos.y())
    }

    /// A copy of the scrollback: each line's cells, oldest line first.
    pub fn cached_lines(&self) -> (r: Vec<Vec<CacheType>>)
        ensures
            r.deep_view() == self.model().lines,
    {
        let mut out: Vec<Vec<CacheType>> = Vec::new();
        let mut i: usize = 0;

        while i < self.cached_lines.len()
            invariant
                0 <= i <= self.cached_lines@.len(),
                out.deep_view() =~~= self.lines_spec().take(i as int),
            decreases self.cached_lines@.len() - i,
        {
            let mut line: Vec<CacheType> = Vec::new();
            let mut j: usize = 0;
            while j < self.cached_lines[i].len()
                invariant
                    i < self.cached_lines@.len(),
                    0 <= j <= self.cached_lines@[i as int]@.len(),
                    line@.len() == j,
                    forall|k: int|
                        0 <= k < j ==> #[trigger] line@[k].deep_view()
                            == self.cached_lines@[i as int]@[k].deep_view(),
                decreases self.cached_lines@[i as int]@.len() - j,
            {
                line.push(clone_cell(&self.cached_lines[i][j]));
                j = j + 1;
            }
            proof {
                assert(line.deep_view() =~~= self.cached_lines@[i as int].deep_view());
            }
            out.push(line);
            proof {
                assert(out.deep_view() =~~= self.lines_spec().take(i + 1));
            }
            i = i + 1;
        }

        proof {
            assert(out.deep_view() =~~= self.lines_spec());
        }
        out
    }

    /// Advances the blink phase by one timer tick and redraws the cursor
    /// cell, touching nothing else: while the blink is visible, the blink
    /// glyph is blitted at the cursor cell in green over the current
    /// background; otherwise the cell is filled with the background. The
    /// console's state other than the blink phase is untouched; in
    /// particular the style is restored after the draw.
    pub fn tick(&mut self, buffer: &mut Vec<u8>)
        requires
            old(self).wf(),
        ensures
            final(self).wf(),
            final(self).model() == old(self).model(),
            final(self).geometry_unchanged(old(self)),
            final(buffer)@.len() == old(buffer)@.len(),
            final(self).cursor_spec().displayed_spec() == (((old(self).cursor_spec().time_spec()
                as int / old(self).cursor_spec().period_spec() as int) % 2) == 0),
            !final(self).cursor_spec().displayed_spec() ==> {
                &&& final(self).changes_within_cell(
                    old(buffer)@,
                    final(buffer)@,
                    old(self).model().cursor_x as int,
                    old(self).model().cursor_y as int,
                )
                &&& final(self).cell_cleared(
                    final(buffer)@,
                    old(self).model().cursor_x as int,
                    old(self).model().cursor_y as int,
                    old(self).model().background,
                )
            },
            final(self).cursor_spec().displayed_spec() && ('_' as int) < old(
                self,
            ).fonts_spec().len() ==> {
                &&& forall|k: int|
                    0 <= k < old(buffer)@.len() && !final(self).glyph_drawn_bytes(
                        old(self).fonts_spec()['_' as int],
                        old(self).model().cursor_x as int,
                        old(self).model().cursor_y as int,
                        k,
                    ) ==> final(buffer)@[k] == old(buffer)@[k]
                &&& final(self).glyph_blitted(
                    final(buffer)@,
                    old(self).fonts_spec()['_' as int],
                    old(self).model().cursor_x as int,
                    old(self).model().cursor_y as int,
                    (TextStyle {
                        foreground: ColorName::Green.color_spec(),
                        background: old(self).model().background,
                    }),
                )
            },
            final(self).cursor_spec().displayed_spec() && ('_' as int) >= old(
                self,
            ).fonts_spec().len() ==> final(buffer)@ == old(buffer)@,
    {
        self.cursor.update();

        if self.cursor.is_displayed() {
            let curr = self.text_style.foreground;
            self.text_style.foreground = ColorName::Green.color();
            let pos = self.cursor_pos();
            let ghost pre_draw = buffer@;
            self.draw_glyph_in_cell(pos, '_', buffer);
            let ghost mid = *self;
            self.text_style.foreground = curr;
            proof {
                let cx = old(self).model().cursor_x as int;
                let cy = old(self).model().cursor_y as int;
                assert forall|qx: int, qy: int| true implies #[trigger] self.pixel_index_spec(
                    qx,
                    qy,
                ) == mid.pixel_index_spec(qx, qy) && self.on_screen(qx, qy) == mid.on_screen(
                    qx,
                    qy,
                ) by {}
                if ('_' as int) < mid.fonts_spec().len() {
                    let g = mid.fonts_spec()['_' as int];
                    let style = TextStyle {
                        foreground: ColorName::Green.color_spec(),
                        background: old(self).model().background,
                    };
                    assert(mid.glyph_blitted(buffer@, g, cx, cy, style));
                    assert forall|gx: int, gy: int, qx: int, qy: int|
                        #![trigger Self::glyph_pixel_x(g, cx, gx), Self::glyph_pixel_y(g, cy, gy), self.pixel_index_spec(qx, qy)]
                        0 <= gx < g.width && 0 <= gy < g.height && 0 <= Self::glyph_pixel_x(
                            g,
                            cx,
                            gx,
                        ) <= u16::MAX && 0 <= Self::glyph_pixel_y(g, cy, gy) <= u16::MAX
                            && Self::glyph_pixel_x(g, cx, gx) <= qx < Self::glyph_pixel_x(
                            g,
                            cx,
                            gx,
                        ) + FONT_SCALE as int && Self::glyph_pixel_y(g, cy, gy) <= qy
                            < Self::glyph_pixel_y(g, cy, gy) + FONT_SCALE as int && qx
                            <= u16::MAX && qy <= u16::MAX && self.on_screen(qx, qy)
                        implies self.pixel_painted(
                        buffer@,
                        qx,
                        qy,
                        if Self::glyph_bit(g, gx, gy) {
                            style.foreground
                        } else {
                            style.background
                        },
                    ) by {
                        assert(mid.on_screen(qx, qy));
                        assert(mid.pixel_painted(
                            buffer@,
                            qx,
                            qy,
                            if Self::glyph_bit(g, gx, gy) {
                                style.foreground
                            } else {
                                style.background
                            },
                        ));
                    }
                    assert forall|k: int|
                        0 <= k < old(buffer)@.len() && !self.glyph_drawn_bytes(g, cx, cy, k)
                        implies buffer@[k] == old(buffer)@[k] by {
                        if mid.glyph_drawn_bytes(g, cx, cy, k) {
                            let (gx, gy) = choose|gx: int, gy: int|
                                0 <= gx < g.width && 0 <= gy < g.height
                                    && #[trigger] mid.drawn_bytes(
                                    Self::glyph_pixel_x(g, cx, gx),
                                    Self::glyph_pixel_y(g, cy, gy),
                                    FONT_SCALE as int,
                                    FONT_SCALE as int,
                                    k,
                                );
                            let (wx, wy) = choose|wx: int, wy: int|
                                Self::glyph_pixel_x(g, cx, gx) <= wx < Self::glyph_pixel_x(
                                    g,
                                    cx,
                                    gx,
                                ) + FONT_SCALE as int && Self::glyph_pixel_y(g, cy, gy) <= wy
                                    < Self::glyph_pixel_y(g, cy, gy) + FONT_SCALE as int && wx
                                    <= u16::MAX && wy <= u16::MAX && mid.on_screen(wx, wy)
                                    && #[trigger] mid.pixel_bytes(wx, wy, k);
                            assert(self.pixel_bytes(wx, wy, k));
                            assert(self.drawn_bytes(
                                Self::glyph_pixel_x(g, cx, gx),
                                Self::glyph_pixel_y(g, cy, gy),
                                FONT_SCALE as int,
                                FONT_SCALE as int,
                                k,
                            ));
                            assert(self.glyph_drawn_bytes(g, cx, cy, k));
                        } else {
                            assert(buffer@[k] == pre_draw[k]);
                        }
                    }
                }
            }
        } else {
            let pos = self.cursor_pos();
            self.clear_cell(pos, buffer);
        }
    }

    /// How many character cells a line holds; recorded escapes do not
    /// occupy a column.
    pub open spec fn char_cell_count(line: Seq<CacheCell>) -> int
        decreases line.len(),
    {
        if line.len() == 0 {
            0
        } else {
            Self::char_cell_count(line.drop_last()) + (if line.last() is Char {
                1int
            } else {
                0int
            })
        }
    }

    /// A cell count is never negative.
    pub proof fn lemma_char_cell_count_nonneg(line: Seq<CacheCell>)
        ensures
            Self::char_cell_count(line) >= 0,
        decreases line.len(),
    {
        if line.len() > 0 {
            Self::lemma_char_cell_count_nonneg(line.drop_last());
        }
    }

    /// What a backspace does to the console: in output mode the last cell
    /// of the current scrollback line is dropped; in input mode the last
    /// pending input character is dropped and the cursor column steps back,
    /// with both no-ops at their boundary.
    pub open spec fn backspace_step(m: ConsoleModel) -> ConsoleModel {
        match m.log_type {
            LogType::Output => {
                let last = m.lines.len() - 1;
                let line = m.lines[last];
                let popped = if line.len() == 0 {
                    line
                } else {
                    line.drop_last()
                };
                ConsoleModel { lines: m.lines.update(last, popped), ..m }
            },
            LogType::UserInput => {
                ConsoleModel {
                    input: if m.input.len() == 0 {
                        m.input
                    } else {
                        m.input.drop_last()
                    },
                    cursor_x: if m.cursor_x == 0 {
                        0u16
                    } else {
                        (m.cursor_x - 1) as u16
                    },
                    ..m
                }
            },
        }
    }

    /// Handles one backspace character per `backspace_step`. The cell the
    /// cursor stood in before the call is filled with the background color,
    /// and no pixel outside that cell changes.
    pub fn handle_backspace(&mut self, buffer: &mut Vec<u8>)
        requires
            old(self).wf(),
        ensures
            final(self).wf(),
            final(self).model() == Self::backspace_step(old(self).model()),
            final(self).geometry_unchanged(old(self)),
            final(buffer)@.len() == old(buffer)@.len(),
            final(self).changes_within_cell(
                old(buffer)@,
                final(buffer)@,
                old(self).model().cursor_x as int,
                old(self).model().cursor_y as int,
            ),
            final(self).cell_cleared(
                final(buffer)@,
                old(self).model().cursor_x as int,
                old(self).model().cursor_y as int,
                old(self).model().background,
            ),
    {
        let last_pos = self.cursor_pos();

        match self.log_type {
            LogType::Output => {
                let mut line = self.cached_lines.pop_back().unwrap();
                line.pop();
                self.cached_lines.push_back(line);
                proof {
                    assert(self.lines_spec() =~~= Self::backspace_step(old(self).model()).lines);
                }
            },
            LogType::UserInput => {
                self.cursor.backspace();
            },
        }

        self.clear_cell(last_pos, buffer);
    }

    /// Appends one character cell to the current scrollback line and draws
    /// its glyph at the line's next free column — the count of character
    /// cells already shown — on the visible bottom output row.
    pub fn draw_and_store_glyph_at_end_of_output(&mut self, value: char, buffer: &mut Vec<u8>)
        requires
            old(self).wf(),
        ensures
            final(self).wf(),
            final(self).model() == (ConsoleModel {
                lines: old(self).model().lines.update(
                    old(self).model().lines.len() - 1,
                    old(self).model().lines.last().push(CacheCell::Char(value)),
                ),
                ..old(self).model()
            }),
            final(self).geometry_unchanged(old(self)),
            final(buffer)@.len() == old(buffer)@.len(),
            ({
                let count = Self::char_cell_count(old(self).model().lines.last());
                let col: int = if count > u16::MAX {
                    u16::MAX as int
                } else {
                    count
                };
                let rows_cap: int = old(self).screen_rows() - 2;
                let cache_rows: int = old(self).model().lines.len() - 1;
                let row: int = if cache_rows < rows_cap {
                    cache_rows
                } else {
                    rows_cap
                };
                &&& (value as int) < old(self).fonts_spec().len() ==> {
                    &&& forall|k: int|
                        0 <= k < old(buffer)@.len() && !final(self).glyph_drawn_bytes(
                            old(self).fonts_spec()[value as int],
                            col,
                            row,
                            k,
                        ) ==> final(buffer)@[k] == old(buffer)@[k]
                    &&& final(self).glyph_blitted(
                        final(buffer)@,
                        old(self).fonts_spec()[value as int],
                        col,
                        row,
                        (TextStyle {
                            foreground: old(self).model().foreground,
                            background: old(self).model().background,
                        }),
                    )
                }
                &&& (value as int) >= old(self).fonts_spec().len() ==> final(buffer)@ == old(
                    buffer,
                )@
            }),
    {
        let mut line = self.cached_lines.pop_back().unwrap();
        line.push(CacheType::Char(value));

        // The glyph's column: how many character cells the line already
        // shows, not counting the recorded escapes.
        let mut count: usize = 0;
        let mut i: usize = 0;
        while i < line.len()
            invariant
                0 <= i <= line@.len(),
                count <= i,
                count == Self::char_cell_count(line.deep_view().take(i as int)),
            decreases line@.len() - i,
        {
            proof {
                assert(line.deep_view().take(i + 1).drop_last() =~= line.deep_view().take(
                    i as int,
                ));
                assert(line.deep_view().take(i + 1).last() == line@[i as int].deep_view());
            }
            if line[i].is_char() {
                count = count + 1;
            }
            i = i + 1;
        }

        proof {
            Self::lemma_char_cell_count_nonneg(old(self).model().lines.last());
            assert(line.deep_view().take(line@.len() as int) =~= line.deep_view());
            assert(line.deep_view() =~~= old(self).model().lines.last().push(
                CacheCell::Char(value),
            ));
            assert(line.deep_view().drop_last() =~= old(self).model().lines.last());
            assert(count == Self::char_cell_count(old(self).model().lines.last()) + 1);
        }

        let last_line_size: usize = if count == 0 {
            0
        } else {
            count - 1
        };

        self.cached_lines.push_back(line);

        proof {
            assert(self.lines_spec() =~~= old(self).model().lines.update(
                old(self).model().lines.len() - 1,
                old(self).model().lines.last().push(CacheCell::Char(value)),
            ));
        }

        let rows = self.pixel_height();
        let row_limit: usize = (rows - 2) as usize;
        let cache_rows: usize = self.cached_lines.len() - 1;
        let buff_len: usize = if cache_rows < row_limit {
            cache_rows
        } else {
            row_limit
        };

        let col: u16 = if last_line_size > u16::MAX as usize {
            u16::MAX
        } else {
            last_line_size as u16
        };
        let row: u16 = buff_len as u16;

        self.draw_glyph_in_cell((col, row), value, buffer);
    }

    /// What finishing an output line does to the scrollback: the oldest
    /// line is evicted once the cache is full, and a fresh empty line
    /// becomes current.
    pub open spec fn line_feed_step(m: ConsoleModel, capacity: int) -> ConsoleModel {
        let trimmed = if m.lines.len() == capacity {
            m.lines.skip(1)
        } else {
            m.lines
        };
        ConsoleModel { lines: trimmed.push(Seq::<CacheCell>::empty()), ..m }
    }

    /// Finishes the current output line per `line_feed_step`. When the
    /// visible rows are used up, the pixels scroll up one text row per
    /// `scrolled_rows` (over the scrollback as it stands after any eviction)
    /// and the bottom two rows are background-filled; otherwise the buffer
    /// is untouched.
    pub fn process_buffer_check(&mut self, buffer: &mut Vec<u8>)
        requires
            old(self).wf(),
        ensures
            final(self).wf(),
            final(self).model() == Self::line_feed_step(
                old(self).model(),
                old(self).capacity_spec() as int,
            ),
            final(self).geometry_unchanged(old(self)),
            final(buffer)@.len() == old(buffer)@.len(),
            ({
                let trimmed = if old(self).model().lines.len() == old(self).capacity_spec()
                    as int {
                    old(self).model().lines.skip(1)
                } else {
                    old(self).model().lines
                };
                let scrolled = old(self).screen_rows() <= old(self).input_height_spec() as int
                    || trimmed.len() as int >= old(self).screen_rows() - old(
                    self,
                ).input_height_spec() as int;
                &&& !scrolled ==> final(buffer)@ == old(buffer)@
                &&& scrolled ==> scrolled_rows(
                    old(buffer)@,
                    final(buffer)@,
                    trimmed,
                    (FONT_WIDTH * FONT_SCALE) as int * old(self).bytes_per_pixel_spec(),
                    old(self).row_bytes(),
                    old(self).screen_rows(),
                )
                &&& scrolled ==> forall|k: int|
                    old(buffer)@.len() - 2 * ((FONT_HEIGHT * FONT_SCALE) as int * old(
                        self,
                    ).row_bytes()) <= k < old(buffer)@.len() && 0 <= k ==> final(buffer)@[k]
                        == bg_fill_byte(ColorName::DefaultBackground.color_spec(), k)
            }),
    {
        if self.cached_lines.len() == self.cache_capacity {
            self.cached_lines.pop_front();
            proof {
                assert(self.lines_spec() =~~= old(self).model().lines.skip(1));
            }
        }

        let rows = self.pixel_height();
        let rows_u: usize = rows as usize;
        let input_rows: usize = self.input_height as usize;
        let must_scroll: bool = if rows_u <= input_rows {
            true
        } else {
            self.cached_lines.len() >= rows_u - input_rows
        };
        if must_scroll {
            self.move_buffer_up(buffer);
        }

        self.cached_lines.push_back(Vec::new());

        proof {
            assert(self.lines_spec() =~~= Self::line_feed_step(
                old(self).model(),
                old(self).capacity_spec() as int,
            ).lines);
        }
    }

    /// Resets the scrollback to one empty line and fills the whole buffer
    /// with the theme's default background.
    pub fn clear(&mut self, buffer: &mut Vec<u8>)
        requires
            old(self).wf(),
        ensures
            final(self).wf(),
            final(self).model() == (ConsoleModel {
                lines: seq![Seq::<CacheCell>::empty()],
                ..old(self).model()
            }),
            final(self).geometry_unchanged(old(self)),
            final(buffer)@.len() == old(buffer)@.len(),
            forall|k: int|
                0 <= k < final(buffer)@.len() ==> final(buffer)@[k] == bg_fill_byte(
                    ColorName::DefaultBackground.color_spec(),
                    k,
                ),
    {
        self.cached_lines.clear();
        self.cached_lines.push_back(Vec::new());

        proof {
            assert(self.lines_spec() =~~= seq![Seq::<CacheCell>::empty()]);
        }

        let bg = ColorName::DefaultBackground.color().to_framebuffer_pixel();

        let mut i: usize = 0;
        let num_subpixels = buffer.len();
        while i < num_subpixels
            invariant
                0 <= i <= num_subpixels,
                num_subpixels == buffer@.len(),
                buffer@.len() == old(buffer)@.len(),
                bg@ =~= seq![
                    ColorName::DefaultBackground.color_spec().b,
                    ColorName::DefaultBackground.color_spec().g,
                    ColorName::DefaultBackground.color_spec().r,
                ],
                forall|k: int|
                    0 <= k < i ==> buffer@[k] == bg_fill_byte(
                        ColorName::DefaultBackground.color_spec(),
                        k,
                    ),
                forall|k: int| i <= k < buffer@.len() ==> buffer@[k] == old(buffer)@[k],
            decreases num_subpixels - i,
        {
            buffer.set(i, bg[i % 3]);
            i = i + 1;
        }
    }

    /// Scrolls the visible output up one text row, exactly as
    /// `scrolled_rows` states: each adjacent pair of visible rows is copied
    /// with the width the wider of the two occupies, so stale pixels of a
    /// previously wider row get erased instead of smearing, and the bottom
    /// two rows are filled with the background for the input line. Only
    /// pixel bytes move; the scrollback cells stay put.
    fn move_buffer_up(&self, buffer: &mut Vec<u8>)
        requires
            self.geometry_wf(),
        ensures
            final(buffer)@.len() == old(buffer)@.len(),
            forall|k: int|
                old(buffer)@.len() - 2 * ((FONT_HEIGHT * FONT_SCALE) as int * self.row_bytes())
                    <= k < old(buffer)@.len() && 0 <= k ==> final(buffer)@[k] == bg_fill_byte(
                    ColorName::DefaultBackground.color_spec(),
                    k,
                ),
            scrolled_rows(
                old(buffer)@,
                final(buffer)@,
                self.lines_spec(),
                (FONT_WIDTH * FONT_SCALE) as int * self.bytes_per_pixel_spec(),
                self.row_bytes(),
                self.screen_rows(),
            ),
    {
        let bg = ColorName::DefaultBackground.color().to_framebuffer_pixel();

        let buffer_line: usize = self.dim_pixel_width();
        let fhs: u64 = (FONT_HEIGHT as u64) * (FONT_SCALE as u64);
        let fws: u64 = (FONT_WIDTH as u64) * (FONT_SCALE as u64);
        let font_buffer_line_size: u64 = fhs * (buffer_line as u64);

        let ghost lines = self.lines_spec();
        let ghost rowi = self.row_bytes();
        let ghost cellb = (FONT_WIDTH * FONT_SCALE) as int * self.bytes_per_pixel_spec();
        let ghost fhsi = (FONT_HEIGHT * FONT_SCALE) as int;
        let ghost fblsi = fhsi * rowi;

        proof {
            assert(bg@ =~= seq![
                ColorName::DefaultBackground.color_spec().b,
                ColorName::DefaultBackground.color_spec().g,
                ColorName::DefaultBackground.color_spec().r,
            ]);
            assert(font_buffer_line_size as int == fblsi && fhs as int == fhsi);
            assert(self.width_px_spec() >= 7) by (nonlinear_arith)
                requires
                    self.width_px_spec() / 7 >= 1,
                    self.width_px_spec() >= 0,
            ;
            assert(cellb >= 21 && rowi >= 21) by (nonlinear_arith)
                requires
                    cellb == (FONT_WIDTH * FONT_SCALE) as int * self.bytes_per_pixel_spec(),
                    (FONT_WIDTH * FONT_SCALE) as int == 7,
                    3 <= self.bytes_per_pixel_spec(),
                    rowi == self.width_px_spec() * self.bytes_per_pixel_spec(),
                    self.width_px_spec() >= 7,
            ;
            assert(fblsi >= 0 && fblsi <= 0xF_FFFF_FFFF) by (nonlinear_arith)
                requires
                    fblsi == fhsi * rowi,
                    fhsi == 15,
                    0 <= rowi <= 0xFFFF_FFFF,
            ;
        }

        let pix_height = self.pixel_height();

        // The character-cell widths of the visible rows, oldest first.
        let visible: usize = (pix_height - 1) as usize;
        let total = self.cached_lines.len();
        let take_from: usize = if total > visible {
            total - visible
        } else {
            0
        };
        let ghost startg = take_from as int;

        let mut line_widths: Vec<usize> = Vec::new();
        let mut li: usize = take_from;
        while li < total
            invariant
                take_from <= li <= total,
                total == self.cached_lines@.len(),
                line_widths@.len() == li - take_from,
                total - take_from <= 0xFFFF,
                lines == self.lines_spec(),
                forall|j: int|
                    0 <= j < line_widths@.len() ==> #[trigger] line_widths@[j] as int
                        == Self::char_cell_count(lines[take_from + j]),
            decreases total - li,
        {
            let mut count: usize = 0;
            let mut ci: usize = 0;
            while ci < self.cached_lines[li].len()
                invariant
                    li < self.cached_lines@.len(),
                    lines == self.lines_spec(),
                    0 <= ci <= self.cached_lines@[li as int]@.len(),
                    count <= ci,
                    count as int == Self::char_cell_count(lines[li as int].take(ci as int)),
                decreases self.cached_lines@[li as int]@.len() - ci,
            {
                proof {
                    assert(lines[li as int].take(ci + 1).drop_last() =~= lines[li as int].take(
                        ci as int,
                    ));
                    assert(lines[li as int].take(ci + 1).last() == lines[li as int][ci as int]);
                    assert(lines[li as int][ci as int] == self.cached_lines@[li as int]@[
                        ci as int].deep_view());
                }
                if self.cached_lines[li][ci].is_char() {
                    count = count + 1;
                }
                ci = ci + 1;
            }
            proof {
                assert(lines[li as int].take(lines[li as int].len() as int) =~= lines[li as int]);
            }
            line_widths.push(count);
            li = li + 1;
        }

        let buffer_len: usize = buffer.len();
        let ghost two_rows_edge: int = buffer_len - 2 * fblsi;

        // Copy each row pair in index order; the write position only moves
        // forward, so every copy reads pre-scroll bytes.
        let mut i: usize = 1;
        while i < line_widths.len()
            invariant
                1 <= i,
                i <= line_widths@.len() || line_widths@.len() == 0,
                line_widths@.len() <= 0xFFFF,
                line_widths@.len() == lines.len() - startg,
                startg == if lines.len() as int > self.screen_rows() - 1 {
                    lines.len() - (self.screen_rows() - 1)
                } else {
                    0int
                },
                forall|j: int|
                    0 <= j < line_widths@.len() ==> #[trigger] line_widths@[j] as int
                        == Self::char_cell_count(lines[startg + j]),
                buffer@.len() == old(buffer)@.len(),
                buffer_len == buffer@.len(),
                two_rows_edge == buffer_len - 2 * fblsi,
                buffer_line as int == rowi,
                self.geometry_wf(),
                lines == self.lines_spec(),
                rowi == self.row_bytes(),
                cellb == (FONT_WIDTH * FONT_SCALE) as int * self.bytes_per_pixel_spec(),
                cellb >= 21,
                rowi >= 21,
                fhs as int == fhsi,
                fws as int == (FONT_WIDTH * FONT_SCALE) as int,
                fhsi == (FONT_HEIGHT * FONT_SCALE) as int,
                font_buffer_line_size as int == fblsi,
                fblsi == fhsi * rowi,
                0 <= fblsi <= 0xF_FFFF_FFFF,
                bg@ =~= seq![
                    ColorName::DefaultBackground.color_spec().b,
                    ColorName::DefaultBackground.color_spec().g,
                    ColorName::DefaultBackground.color_spec().r,
                ],
                forall|k: int|
                    (i - 1) * fblsi <= k < buffer_len ==> #[trigger] buffer@[k] == old(buffer)@[k],
                forall|jq: int, lnq: int, bq: int|
                    #![trigger buffer@[(jq - 1) * fblsi + lnq * rowi + bq]]
                    scroll_claim(
                        old(buffer)@,
                        buffer@,
                        lines,
                        cellb,
                        rowi,
                        startg,
                        fhsi,
                        two_rows_edge,
                        jq,
                        lnq,
                        bq,
                    ) || !(1 <= jq < i && 0 <= lnq < fhsi && 0 <= bq),
            decreases line_widths@.len() - i,
        {
            let prev_width = line_widths[i - 1];
            let curr_width = line_widths[i];

            // Row widths in bytes, capped at one full row.
            proof {
                assert((prev_width as int) * (fws as int) * (self.bytes_per_pixel as int)
                    < 0x1_0000_0000_0000_0000_0000_0000 && (prev_width as int) * (fws as int) * (
                self.bytes_per_pixel as int) == (prev_width as int) * cellb && (prev_width as int)
                    * cellb >= 0 && ((prev_width as int) > 0 ==> (prev_width as int) * cellb
                    >= cellb)) by (nonlinear_arith)
                    requires
                        (prev_width as int) >= 0,
                        (prev_width as int) < 0x1_0000_0000_0000_0000,
                        0 <= fws as int <= 0xFFFF,
                        0 <= self.bytes_per_pixel as int <= 64,
                        cellb == (fws as int) * (self.bytes_per_pixel as int),
                ;
                assert((curr_width as int) * (fws as int) * (self.bytes_per_pixel as int)
                    < 0x1_0000_0000_0000_0000_0000_0000 && (curr_width as int) * (fws as int) * (
                self.bytes_per_pixel as int) == (curr_width as int) * cellb && (curr_width as int)
                    * cellb >= 0 && ((curr_width as int) > 0 ==> (curr_width as int) * cellb
                    >= cellb)) by (nonlinear_arith)
                    requires
                        (curr_width as int) >= 0,
                        (curr_width as int) < 0x1_0000_0000_0000_0000,
                        0 <= fws as int <= 0xFFFF,
                        0 <= self.bytes_per_pixel as int <= 64,
                        cellb == (fws as int) * (self.bytes_per_pixel as int),
                ;
            }
            let prev_raw: u128 = (prev_width as u128) * (fws as u128) * (self.bytes_per_pixel
                as u128);
            let curr_raw: u128 = (curr_width as u128) * (fws as u128) * (self.bytes_per_pixel
                as u128);
            let prev_line_width: u64 = if prev_raw > buffer_line as u128 {
                buffer_line as u64
            } else {
                prev_raw as u64
            };
            let curr_line_width: u64 = if curr_raw > buffer_line as u128 {
                buffer_line as u64
            } else {
                curr_raw as u64
            };

            let ghost prev_w = occupied_row_bytes(lines[startg + i - 1], cellb, rowi);
            let ghost curr_w = occupied_row_bytes(lines[startg + i], cellb, rowi);
            proof {
                assert(prev_width as int == Self::char_cell_count(lines[startg + i - 1]));
                assert(curr_width as int == Self::char_cell_count(lines[startg + i]));
                assert(prev_raw as int == (prev_width as int) * cellb);
                assert(curr_raw as int == (curr_width as int) * cellb);
                assert(prev_line_width as int == prev_w && curr_line_width as int == curr_w);
                assert((prev_width != 0) == (prev_w != 0));
            }

            proof {
                assert((i - 1) * fblsi >= 0 && i * fblsi == (i - 1) * fblsi + fblsi && (i as int)
                    * fblsi <= 0xFFFF * 0xF_FFFF_FFFF) by (nonlinear_arith)
                    requires
                        1 <= i as int <= 0xFFFF,
                        0 <= fblsi <= 0xF_FFFF_FFFF,
                ;
            }

            let px: u64 = ((i - 1) as u64) * font_buffer_line_size;
            let cx: u64 = (i as u64) * font_buffer_line_size;

            let erase_tail: bool = prev_width != 0 && prev_line_width > curr_line_width;
            let copy_bytes: u64 = if erase_tail {
                prev_line_width
            } else {
                curr_line_width
            };
            proof {
                assert(prev_width != 0 ==> copy_bytes as int == row_copy_bytes(prev_w, curr_w));
                assert(copy_bytes as int == row_copy_bytes(prev_w, curr_w));
                assert(copy_bytes as int <= rowi);
            }

            let mut ln: u64 = 0;
            while ln < fhs
                invariant
                    ln <= fhs,
                    buffer@.len() == old(buffer)@.len(),
                    buffer_len == buffer@.len(),
                    two_rows_edge == buffer_len - 2 * fblsi,
                    buffer_line as int == rowi,
                    21 <= rowi <= 0xFFFF_FFFF,
                    cellb >= 21,
                    fhs as int == fhsi,
                    font_buffer_line_size as int == fblsi,
                    fblsi == fhsi * rowi,
                    0 <= fblsi <= 0xF_FFFF_FFFF,
                    fhsi <= 0xFFFF,
                    1 <= i as int <= 0xFFFF,
                    px as int <= 0xFFFF * 0xF_FFFF_FFFF,
                    cx as int <= 0xFFFF * 0xF_FFFF_FFFF + 0xF_FFFF_FFFF,
                    px as int == (i - 1) * fblsi,
                    cx as int == i as int * fblsi,
                    cx as int == px as int + fblsi,
                    copy_bytes as int == row_copy_bytes(prev_w, curr_w),
                    copy_bytes as int <= rowi,
                    prev_w == occupied_row_bytes(lines[startg + i - 1], cellb, rowi),
                    curr_w == occupied_row_bytes(lines[startg + i], cellb, rowi),
                    curr_line_width as int == curr_w,
                    erase_tail == (prev_w != 0 && prev_w > curr_w),
                    bg@ =~= seq![
                        ColorName::DefaultBackground.color_spec().b,
                        ColorName::DefaultBackground.color_spec().g,
                        ColorName::DefaultBackground.color_spec().r,
                    ],
                    forall|k: int|
                        px as int + ln * rowi <= k < buffer_len ==> #[trigger] buffer@[k] == old(
                            buffer,
                        )@[k],
                    forall|jq: int, lnq: int, bq: int|
                        #![trigger buffer@[(jq - 1) * fblsi + lnq * rowi + bq]]
                        scroll_claim(
                            old(buffer)@,
                            buffer@,
                            lines,
                            cellb,
                            rowi,
                            startg,
                            fhsi,
                            two_rows_edge,
                            jq,
                            lnq,
                            bq,
                        ) || !(1 <= jq < i + 1 && 0 <= lnq < fhsi && 0 <= bq && (jq < i || lnq
                            < ln)),
                decreases fhs - ln,
            {
                proof {
                    assert((ln as int) * rowi >= 0 && (ln as int) * rowi + rowi == (ln as int + 1)
                        * rowi && (ln as int + 1) * rowi <= fhsi * rowi) by (nonlinear_arith)
                        requires
                            0 <= ln as int,
                            ln as int + 1 <= fhsi,
                            rowi >= 0,
                    ;
                }
                proof {
                    assert((buffer_line as int) * (ln as int) <= 0xFFFF_FFFF * 0xFFFF)
                        by (nonlinear_arith)
                        requires
                            0 <= buffer_line as int <= 0xFFFF_FFFF,
                            0 <= ln as int <= 0xFFFF,
                    ;
                }
                let row_off: u64 = (buffer_line as u64) * ln;
                let mut b: u64 = 0;
                while b < copy_bytes
                    invariant
                        b <= copy_bytes,
                        ln < fhs,
                        buffer@.len() == old(buffer)@.len(),
                        buffer_len == buffer@.len(),
                        two_rows_edge == buffer_len - 2 * fblsi,
                        buffer_line as int == rowi,
                        21 <= rowi <= 0xFFFF_FFFF,
                        cellb >= 21,
                        fhs as int == fhsi,
                        font_buffer_line_size as int == fblsi,
                        fblsi == fhsi * rowi,
                        0 <= fblsi <= 0xF_FFFF_FFFF,
                        fhsi <= 0xFFFF,
                        1 <= i as int <= 0xFFFF,
                        px as int <= 0xFFFF * 0xF_FFFF_FFFF,
                        cx as int <= 0xFFFF * 0xF_FFFF_FFFF + 0xF_FFFF_FFFF,
                        px as int == (i - 1) * fblsi,
                        cx as int == i as int * fblsi,
                        cx as int == px as int + fblsi,
                        row_off as int == ln as int * rowi,
                        row_off as int + rowi <= fblsi,
                        copy_bytes as int == row_copy_bytes(prev_w, curr_w),
                        copy_bytes as int <= rowi,
                        prev_w == occupied_row_bytes(lines[startg + i - 1], cellb, rowi),
                        curr_w == occupied_row_bytes(lines[startg + i], cellb, rowi),
                        curr_line_width as int == curr_w,
                        erase_tail == (prev_w != 0 && prev_w > curr_w),
                        bg@ =~= seq![
                            ColorName::DefaultBackground.color_spec().b,
                            ColorName::DefaultBackground.color_spec().g,
                            ColorName::DefaultBackground.color_spec().r,
                        ],
                        forall|k: int|
                            px as int + row_off as int + b <= k < buffer_len ==> #[trigger] buffer@[k]
                                == old(buffer)@[k],
                        forall|jq: int, lnq: int, bq: int|
                            #![trigger buffer@[(jq - 1) * fblsi + lnq * rowi + bq]]
                            scroll_claim(
                                old(buffer)@,
                                buffer@,
                                lines,
                                cellb,
                                rowi,
                                startg,
                                fhsi,
                                two_rows_edge,
                                jq,
                                lnq,
                                bq,
                            ) || !(1 <= jq < i + 1 && 0 <= lnq < fhsi && 0 <= bq && (jq < i || lnq
                                < ln || (lnq == ln && bq < b))),
                    decreases copy_bytes - b,
                {
                    let dst: u64 = px + b + row_off;
                    let src: u64 = cx + b + row_off;
                    proof {
                        assert(dst as int == (i - 1) * fblsi + ln as int * rowi + b);
                        assert(src as int == dst as int + fblsi);
                    }
                    let ghost before = buffer@;

                    if erase_tail && b > curr_line_width {
                        if dst < buffer_len as u64 {
                            let d = dst as usize;
                            buffer.set(d, bg[d % 3]);
                        }
                    } else {
                        if dst < buffer_len as u64 && src < buffer_len as u64 {
                            let value = buffer[src as usize];
                            buffer.set(dst as usize, value);
                        }
                    }

                    proof {
                        assert forall|jq: int, lnq: int, bq: int|
                            !(scroll_claim(
                                old(buffer)@,
                                buffer@,
                                lines,
                                cellb,
                                rowi,
                                startg,
                                fhsi,
                                two_rows_edge,
                                jq,
                                lnq,
                                bq,
                            ) || !(1 <= jq < i + 1 && 0 <= lnq < fhsi && 0 <= bq && (jq < i || lnq
                                < ln || (lnq == ln && bq < b + 1)))) implies false by {
                            let dq = (jq - 1) * fblsi + lnq * rowi + bq;
                            if jq == i as int && lnq == ln as int && bq == b as int {
                                assert(dq == dst as int);
                            } else {
                                assert((jq - 1) * fblsi + lnq * rowi + bq < (i - 1) * fblsi + (
                                ln as int) * rowi + b) by (nonlinear_arith)
                                    requires
                                        1 <= jq,
                                        0 <= lnq < fhsi,
                                        0 <= bq,
                                        bq < row_copy_bytes(
                                            occupied_row_bytes(lines[startg + jq - 1], cellb, rowi),
                                            occupied_row_bytes(lines[startg + jq], cellb, rowi),
                                        ) ==> bq < rowi,
                                        bq < rowi,
                                        jq < i as int || (jq == i as int && (lnq < ln as int || (
                                        lnq == ln as int && bq < b as int))),
                                        fblsi == fhsi * rowi,
                                        rowi >= 21,
                                        fhsi >= 0,
                                ;
                                assert(dq < dst as int);
                                assert(buffer@[dq] == before[dq]);
                            }
                        }
                    }
                    b = b + 1;
                }
                ln = ln + 1;
            }

            i = i + 1;
        }

        // Background-fill the last two text rows; they are reserved for the
        // input line.
        let two_rows: u64 = 2 * font_buffer_line_size;
        let start: u64 = if buffer_len as u64 > two_rows {
            buffer_len as u64 - two_rows
        } else {
            0
        };

        proof {
            assert(font_buffer_line_size == (FONT_HEIGHT * FONT_SCALE) as int * self.row_bytes());
        }

        let ghost n_pairs = line_widths@.len() as int;
        let mut k: u64 = start;
        while k < buffer_len as u64
            invariant
                buffer@.len() == old(buffer)@.len(),
                buffer_len == buffer@.len(),
                start <= k,
                start as int == if buffer_len > 2 * fblsi {
                    buffer_len - 2 * fblsi
                } else {
                    0int
                },
                two_rows_edge == buffer_len - 2 * fblsi,
                two_rows == 2 * ((FONT_HEIGHT * FONT_SCALE) as int * self.row_bytes()),
                fblsi == (FONT_HEIGHT * FONT_SCALE) as int * self.row_bytes(),
                rowi == self.row_bytes(),
                fhsi == (FONT_HEIGHT * FONT_SCALE) as int,
                bg@ =~= seq![
                    ColorName::DefaultBackground.color_spec().b,
                    ColorName::DefaultBackground.color_spec().g,
                    ColorName::DefaultBackground.color_spec().r,
                ],
                forall|j: int|
                    start <= j < k ==> buffer@[j] == bg_fill_byte(
                        ColorName::DefaultBackground.color_spec(),
                        j,
                    ),
                forall|jq: int, lnq: int, bq: int|
                    #![trigger buffer@[(jq - 1) * fblsi + lnq * rowi + bq]]
                    scroll_claim(
                        old(buffer)@,
                        buffer@,
                        lines,
                        cellb,
                        rowi,
                        startg,
                        fhsi,
                        two_rows_edge,
                        jq,
                        lnq,
                        bq,
                    ) || !(1 <= jq < n_pairs && 0 <= lnq < fhsi && 0 <= bq),
            decreases buffer_len as u64 - k,
        {
            let ghost before = buffer@;
            let d = k as usize;
            buffer.set(d, bg[d % 3]);
            proof {
                assert forall|jq: int, lnq: int, bq: int|
                    !(scroll_claim(
                        old(buffer)@,
                        buffer@,
                        lines,
                        cellb,
                        rowi,
                        startg,
                        fhsi,
                        two_rows_edge,
                        jq,
                        lnq,
                        bq,
                    ) || !(1 <= jq < n_pairs && 0 <= lnq < fhsi && 0 <= bq)) implies false by {
                    let dq = (jq - 1) * fblsi + lnq * rowi + bq;
                    if 0 <= dq < two_rows_edge {
                        assert(dq != k as int);
                        assert(buffer@[dq] == before[dq]);
                    }
                }
            }
            k = k + 1;
        }

        proof {
            assert(scrolled_rows(
                old(buffer)@,
                buffer@,
                lines,
                cellb,
                rowi,
                self.screen_rows(),
            ));
        }
    }
}

/// Copies a character vector.
pub fn copy_chars(v: &Vec<char>) -> (r: Vec<char>)
    ensures
        r@ == v@,
{
    let mut out: Vec<char> = Vec::new();
    let mut i: usize = 0;
    while i < v.len()
        invariant
            0 <= i <= v@.len(),
            out@ =~= v@.take(i as int),
        decreases v@.len() - i,
    {
        out.push(v[i]);
        i = i + 1;
    }
    proof {
        assert(out@ =~= v@);
    }
    out
}

/// Copies one scrollback cell.
pub fn clone_cell(cell: &CacheType) -> (r: CacheType)
    ensures
        r.deep_view() == cell.deep_view(),
{
    match cell {
        CacheType::Char(c) => CacheType::Char(*c),
        CacheType::AnsiEscape(raw) => CacheType::AnsiEscape(copy_chars(raw)),
    }
}

/// The byte a pixel write puts at channel offset `o`: blue, green, red,
/// then opaque padding.
pub open spec fn pixel_channel(c: Color, o: int) -> u8 {
    if o == 0 {
        c.b
    } else if o == 1 {
        c.g
    } else if o == 2 {
        c.r
    } else {
        0xFFu8
    }
}

/// The byte an all-background fill writes at index `k`: the blue, green and
/// red channels of the color, repeating every three bytes.
pub open spec fn bg_fill_byte(c: Color, k: int) -> u8 {
    if k % 3 == 0 {
        c.b
    } else if k % 3 == 1 {
        c.g
    } else {
        c.r
    }
}


impl ConsoleContainer {
    /// A cursor delta taken from an escape parameter, capped at what the
    /// motion API accepts.
    pub open spec fn escape_delta(n: usize) -> int {
        if n as int > i32::MAX as int {
            i32::MAX as int
        } else {
            n as int
        }
    }

    /// A cursor motion applied to the model, both axes clamped onto the
    /// screen.
    pub open spec fn moved_model(m: ConsoleModel, dx: int, dy: int, cols: int, rows: int) -> ConsoleModel {
        ConsoleModel {
            cursor_x: Self::clamped_axis(m.cursor_x, dx, cols),
            cursor_y: Self::clamped_axis(m.cursor_y, dy, rows),
            ..m
        }
    }

    /// A graphics-rendition change applied to the model: each present color
    /// replaces the corresponding style entry.
    pub open spec fn style_step(m: ConsoleModel, attr: GraphicsAttributes) -> ConsoleModel {
        ConsoleModel {
            foreground: match attr.foreground_color {
                Some(c) => c.color_spec(),
                None => m.foreground,
            },
            background: match attr.background_color {
                Some(c) => c.color_spec(),
                None => m.background,
            },
            ..m
        }
    }

    /// What one decoded control item does to the console: the four cursor
    /// motions move and clamp, a graphics rendition restyles, every other
    /// recognized tag defers its effect. In output mode the matched raw
    /// sequence is additionally recorded as a cell, so scrollback lines
    /// replay exactly.
    pub open spec fn ansi_step(m: ConsoleModel, a: Ansi, raw: Seq<char>, cols: int, rows: int) -> ConsoleModel {
        let applied = match a {
            Ansi::Escape(esc) => match esc {
                AnsiEscape::ControlSequenceIntroducer(csi) => match csi {
                    AnsiEscapeCSI::CursorUp(n) => Self::moved_model(
                        m,
                        0,
                        -Self::escape_delta(n),
                        cols,
                        rows,
                    ),
                    AnsiEscapeCSI::CursorDown(n) => Self::moved_model(
                        m,
                        0,
                        Self::escape_delta(n),
                        cols,
                        rows,
                    ),
                    AnsiEscapeCSI::CursorForward(n) => Self::moved_model(
                        m,
                        Self::escape_delta(n),
                        0,
                        cols,
                        rows,
                    ),
                    AnsiEscapeCSI::CursorBack(n) => Self::moved_model(
                        m,
                        -Self::escape_delta(n),
                        0,
                        cols,
                        rows,
                    ),
                    AnsiEscapeCSI::SelectGraphicRendition(attr) => Self::style_step(m, attr),
                    _ => m,
                },
                _ => m,
            },
            _ => m,
        };
        if m.log_type is Output {
            ConsoleModel {
                lines: applied.lines.update(
                    applied.lines.len() - 1,
                    applied.lines.last().push(CacheCell::AnsiEscape(raw)),
                ),
                ..applied
            }
        } else {
            applied
        }
    }

    /// One literal character in output mode: a newline finishes the line, a
    /// backspace pops the last cell, anything else becomes a character
    /// cell.
    pub open spec fn output_char_step(m: ConsoleModel, c: char, capacity: int) -> ConsoleModel {
        if c == '\n' {
            Self::line_feed_step(m, capacity)
        } else if c == '\x08' {
            Self::backspace_step(m)
        } else {
            ConsoleModel {
                lines: m.lines.update(
                    m.lines.len() - 1,
                    m.lines.last().push(CacheCell::Char(c)),
                ),
                ..m
            }
        }
    }

    /// One literal non-newline character in input mode: a backspace steps
    /// back, anything else joins the pending input line.
    pub open spec fn input_char_step(m: ConsoleModel, c: char, cols: int) -> ConsoleModel {
        if c == '\x08' {
            Self::backspace_step(m)
        } else {
            ConsoleModel {
                input: m.input.push(c),
                cursor_x: if m.cursor_x + 1 >= cols {
                    m.cursor_x
                } else {
                    (m.cursor_x + 1) as u16
                },
                ..m
            }
        }
    }

    /// Processing a character stream while in output mode. Escapes that
    /// decode are applied and recorded; an ESC that fails to decode falls
    /// back to literal handling without consuming anything else.
    pub open spec fn process_output_spec(
        m: ConsoleModel,
        s: Seq<char>,
        i: int,
        cols: int,
        rows: int,
        capacity: int,
    ) -> ConsoleModel
        decreases s.len() - i when 0 <= i <= s.len()
    {
        if i >= s.len() {
            m
        } else {
            match crate::ansi::parse_ansi(s, i) {
                Some((a, j)) => {
                    let j2 = if i < j && j <= s.len() {
                        j
                    } else {
                        i + 1
                    };
                    Self::process_output_spec(
                        Self::ansi_step(m, a, s.subrange(i, j2), cols, rows),
                        s,
                        j2,
                        cols,
                        rows,
                        capacity,
                    )
                },
                None => Self::process_output_spec(
                    Self::output_char_step(m, s[i], capacity),
                    s,
                    i + 1,
                    cols,
                    rows,
                    capacity,
                ),
            }
        }
    }

    /// Processing a character stream in either mode. In input mode a
    /// newline commits the pending line: the drawn input is cleared, the
    /// taken line replays through output processing followed by a newline,
    /// and the console returns to input mode.
    pub open spec fn process_spec(
        m: ConsoleModel,
        s: Seq<char>,
        i: int,
        cols: int,
        rows: int,
        capacity: int,
    ) -> ConsoleModel
        decreases s.len() - i when 0 <= i <= s.len()
    {
        if i >= s.len() {
            m
        } else {
            match crate::ansi::parse_ansi(s, i) {
                Some((a, j)) => {
                    let j2 = if i < j && j <= s.len() {
                        j
                    } else {
                        i + 1
                    };
                    Self::process_spec(
                        Self::ansi_step(m, a, s.subrange(i, j2), cols, rows),
                        s,
                        j2,
                        cols,
                        rows,
                        capacity,
                    )
                },
                None => {
                    let c = s[i];
                    let next = if m.log_type is Output {
                        Self::output_char_step(m, c, capacity)
                    } else if c == '\n' {
                        let committed = ConsoleModel {
                            log_type: LogType::Output,
                            cursor_x: 0,
                            input: Seq::<char>::empty(),
                            ..m
                        };
                        let replayed = Self::process_output_spec(
                            committed,
                            m.input.push('\n'),
                            0,
                            cols,
                            rows,
                            capacity,
                        );
                        ConsoleModel { log_type: LogType::UserInput, ..replayed }
                    } else {
                        Self::input_char_step(m, c, cols)
                    };
                    Self::process_spec(next, s, i + 1, cols, rows, capacity)
                },
            }
        }
    }

    fn delta_i32(n: usize) -> (r: i32)
        ensures
            r as int == Self::escape_delta(n),
            r >= 0,
    {
        if n > i32::MAX as usize {
            i32::MAX
        } else {
            n as i32
        }
    }

    /// Applies one decoded control item per `ansi_step`.
    fn apply_escape(&mut self, item: &Ansi, raw: Vec<char>)
        requires
            old(self).wf(),
        ensures
            final(self).wf(),
            final(self).model() == Self::ansi_step(
                old(self).model(),
                *item,
                raw@,
                old(self).screen_cols(),
                old(self).screen_rows(),
            ),
            final(self).geometry_unchanged(old(self)),
    {
        match item {
            Ansi::Escape(esc) => match esc {
                AnsiEscape::ControlSequenceIntroducer(csi) => match csi {
                    AnsiEscapeCSI::CursorUp(n) => {
                        let d = Self::delta_i32(*n);
                        self.move_cursor(0, -d);
                    },
                    AnsiEscapeCSI::CursorDown(n) => {
                        let d = Self::delta_i32(*n);
                        self.move_cursor(0, d);
                    },
                    AnsiEscapeCSI::CursorForward(n) => {
                        let d = Self::delta_i32(*n);
                        self.move_cursor(d, 0);
                    },
                    AnsiEscapeCSI::CursorBack(n) => {
                        let d = Self::delta_i32(*n);
                        self.move_cursor(-d, 0);
                    },
                    AnsiEscapeCSI::SelectGraphicRendition(attr) => {
                        if let Some(color) = attr.background_color {
                            self.text_style.background = color.color();
                        }
                        if let Some(color) = attr.foreground_color {
                            self.text_style.foreground = color.color();
                        }
                    },
                    _ => {},
                },
                _ => {},
            },
            _ => {},
        }

        match self.log_type {
            LogType::Output => {
                let mut line = self.cached_lines.pop_back().unwrap();
                line.push(CacheType::AnsiEscape(raw));
                self.cached_lines.push_back(line);
                proof {
                    assert(self.lines_spec() =~~= Self::ansi_step(
                        old(self).model(),
                        *item,
                        raw@,
                        old(self).screen_cols(),
                        old(self).screen_rows(),
                    ).lines);
                }
            },
            LogType::UserInput => {},
        }
    }

    /// Handles one literal character in output mode per `output_char_step`.
    fn output_literal(&mut self, c: char, buffer: &mut Vec<u8>)
        requires
            old(self).wf(),
            old(self).model().log_type is Output,
        ensures
            final(self).wf(),
            final(self).model() == Self::output_char_step(
                old(self).model(),
                c,
                old(self).capacity_spec() as int,
            ),
            final(self).geometry_unchanged(old(self)),
            final(buffer)@.len() == old(buffer)@.len(),
    {
        if c == '\n' {
            self.process_buffer_check(buffer);
        } else if c == '\x08' {
            self.handle_backspace(buffer);
        } else {
            self.draw_and_store_glyph_at_end_of_output(c, buffer);
        }
    }

    /// Handles one literal non-newline character in input mode per
    /// `input_char_step`: the cell under the cursor is redrawn with the new
    /// character, which joins the pending input line.
    fn input_literal(&mut self, c: char, buffer: &mut Vec<u8>)
        requires
            old(self).wf(),
            old(self).model().log_type is UserInput,
            c != '\n',
        ensures
            final(self).wf(),
            final(self).model() == Self::input_char_step(
                old(self).model(),
                c,
                old(self).screen_cols(),
            ),
            final(self).geometry_unchanged(old(self)),
            final(buffer)@.len() == old(buffer)@.len(),
    {
        if c == '\x08' {
            self.handle_backspace(buffer);
        } else {
            self.clear_current_cell(buffer);
            self.draw_glyph_in_current_cell(c, buffer);
            self.insert_input(c);
        }
    }

    /// Processes characters while in output mode; the committed input line
    /// replays through this.
    fn process_chars_output(&mut self, chars: Vec<char>, buffer: &mut Vec<u8>)
        requires
            old(self).wf(),
            old(self).model().log_type is Output,
        ensures
            final(self).wf(),
            final(self).model() == Self::process_output_spec(
                old(self).model(),
                chars@,
                0,
                old(self).screen_cols(),
                old(self).screen_rows(),
                old(self).capacity_spec() as int,
            ),
            final(self).geometry_unchanged(old(self)),
            final(buffer)@.len() == old(buffer)@.len(),
    {
        let ghost s = chars@;
        let ghost m0 = old(self).model();
        let ghost cols = old(self).screen_cols();
        let ghost rows = old(self).screen_rows();
        let ghost cap = old(self).capacity_spec() as int;

        let mut container = SaveStateIterContainer::new(chars);
        let mut it = container.iter();

        loop
            invariant
                container.stream_spec() == s,
                it.index_spec() <= container.cache_spec().len(),
                self.wf(),
                self.model().log_type is Output,
                self.geometry_unchanged(old(self)),
                self.screen_cols() == cols,
                self.screen_rows() == rows,
                self.capacity_spec() as int == cap,
                buffer@.len() == old(buffer)@.len(),
                m0 == old(self).model(),
                Self::process_output_spec(m0, s, 0, cols, rows, cap)
                    == Self::process_output_spec(
                    self.model(),
                    s,
                    it.index_spec() as int,
                    cols,
                    rows,
                    cap,
                ),
            ensures
                self.wf(),
                self.model().log_type is Output,
                self.geometry_unchanged(old(self)),
                buffer@.len() == old(buffer)@.len(),
                it.index_spec() as int == s.len(),
                Self::process_output_spec(m0, s, 0, cols, rows, cap)
                    == Self::process_output_spec(
                    self.model(),
                    s,
                    it.index_spec() as int,
                    cols,
                    rows,
                    cap,
                ),
            decreases s.len() - it.index_spec(),
        {
            proof {
                assert(container.cache_spec().len() <= s.len()) by {
                    assert(s == container.cache_spec() + container.upstream_spec());
                }
            }

            let i_before = it.index();

            match it.peek(&container) {
                None => {
                    proof {
                        assert(it.index_spec() as int == s.len());
                    }
                    break;
                },
                Some(_) => {},
            }

            let ghost m_pre = self.model();

            match crate::ansi::try_parse_ansi(&mut it, &mut container) {
                None => {
                    let c = it.next(&mut container).unwrap();
                    self.output_literal(c, buffer);
                    proof {
                        assert(crate::ansi::parse_ansi(s, i_before as int) is None);
                        assert(Self::process_output_spec(m_pre, s, i_before as int, cols, rows, cap)
                            == Self::process_output_spec(
                            self.model(),
                            s,
                            i_before + 1,
                            cols,
                            rows,
                            cap,
                        ));
                    }
                },
                Some(parsed) => match parsed {
                    Some(a) => {
                        let i_after = it.index();
                        proof {
                            crate::ansi::lemma_parse_ansi_advances(s, i_before as int);
                            assert(container.cache_spec() =~= s.take(
                                container.cache_spec().len() as int,
                            )) by {
                                assert(s == container.cache_spec() + container.upstream_spec());
                            }
                        }
                        let raw = container.cache_slice(i_before, i_after);
                        proof {
                            assert(raw@ =~= s.subrange(i_before as int, i_after as int));
                        }
                        self.apply_escape(&a, raw);
                        proof {
                            assert(Self::process_output_spec(m_pre, s, i_before as int, cols, rows, cap)
                                == Self::process_output_spec(
                                self.model(),
                                s,
                                i_after as int,
                                cols,
                                rows,
                                cap,
                            ));
                        }
                    },
                    None => {
                        let c = it.next(&mut container).unwrap();
                        self.output_literal(c, buffer);
                        proof {
                            assert(crate::ansi::parse_ansi(s, i_before as int) is None);
                            assert(Self::process_output_spec(m_pre, s, i_before as int, cols, rows, cap)
                                == Self::process_output_spec(
                                self.model(),
                                s,
                                i_before + 1,
                                cols,
                                rows,
                                cap,
                            ));
                        }
                    },
                },
            }
        }
    }

    /// Processes characters in either mode, committing the input line on a
    /// newline in input mode.
    fn process_chars(&mut self, chars: Vec<char>, buffer: &mut Vec<u8>)
        requires
            old(self).wf(),
        ensures
            final(self).wf(),
            final(self).model() == Self::process_spec(
                old(self).model(),
                chars@,
                0,
                old(self).screen_cols(),
                old(self).screen_rows(),
                old(self).capacity_spec() as int,
            ),
            final(self).geometry_unchanged(old(self)),
            final(buffer)@.len() == old(buffer)@.len(),
    {
        let ghost s = chars@;
        let ghost m0 = old(self).model();
        let ghost cols = old(self).screen_cols();
        let ghost rows = old(self).screen_rows();
        let ghost cap = old(self).capacity_spec() as int;

        let mut container = SaveStateIterContainer::new(chars);
        let mut it = container.iter();

        loop
            invariant
                container.stream_spec() == s,
                it.index_spec() <= container.cache_spec().len(),
                self.wf(),
                self.geometry_unchanged(old(self)),
                self.screen_cols() == cols,
                self.screen_rows() == rows,
                self.capacity_spec() as int == cap,
                buffer@.len() == old(buffer)@.len(),
                m0 == old(self).model(),
                Self::process_spec(m0, s, 0, cols, rows, cap) == Self::process_spec(
                    self.model(),
                    s,
                    it.index_spec() as int,
                    cols,
                    rows,
                    cap,
                ),
            ensures
                self.wf(),
                self.geometry_unchanged(old(self)),
                buffer@.len() == old(buffer)@.len(),
                it.index_spec() as int == s.len(),
                Self::process_spec(m0, s, 0, cols, rows, cap) == Self::process_spec(
                    self.model(),
                    s,
                    it.index_spec() as int,
                    cols,
                    rows,
                    cap,
                ),
            decreases s.len() - it.index_spec(),
        {
            proof {
                assert(container.cache_spec().len() <= s.len()) by {
                    assert(s == container.cache_spec() + container.upstream_spec());
                }
            }

            let i_before = it.index();

            match it.peek(&container) {
                None => {
                    proof {
                        assert(it.index_spec() as int == s.len());
                    }
                    break;
                },
                Some(_) => {},
            }

            let ghost m_pre = self.model();

            match crate::ansi::try_parse_ansi(&mut it, &mut container) {
                None => {
                    let c = it.next(&mut container).unwrap();
                    self.literal_either_mode(c, buffer);
                    proof {
                        assert(crate::ansi::parse_ansi(s, i_before as int) is None);
                        assert(Self::process_spec(m_pre, s, i_before as int, cols, rows, cap)
                            == Self::process_spec(
                            self.model(),
                            s,
                            i_before + 1,
                            cols,
                            rows,
                            cap,
                        ));
                    }
                },
                Some(parsed) => match parsed {
                    Some(a) => {
                        let i_after = it.index();
                        proof {
                            crate::ansi::lemma_parse_ansi_advances(s, i_before as int);
                            assert(container.cache_spec() =~= s.take(
                                container.cache_spec().len() as int,
                            )) by {
                                assert(s == container.cache_spec() + container.upstream_spec());
                            }
                        }
                        let raw = container.cache_slice(i_before, i_after);
                        proof {
                            assert(raw@ =~= s.subrange(i_before as int, i_after as int));
                        }
                        self.apply_escape(&a, raw);
                        proof {
                            assert(Self::process_spec(m_pre, s, i_before as int, cols, rows, cap)
                                == Self::process_spec(
                                self.model(),
                                s,
                                i_after as int,
                                cols,
                                rows,
                                cap,
                            ));
                        }
                    },
                    None => {
                        let c = it.next(&mut container).unwrap();
                        self.literal_either_mode(c, buffer);
                        proof {
                            assert(crate::ansi::parse_ansi(s, i_before as int) is None);
                            assert(Self::process_spec(m_pre, s, i_before as int, cols, rows, cap)
                                == Self::process_spec(
                                self.model(),
                                s,
                                i_before + 1,
                                cols,
                                rows,
                                cap,
                            ));
                        }
                    },
                },
            }
        }
    }

    /// One literal character, dispatched on the mode; in input mode a
    /// newline commits the pending line.
    fn literal_either_mode(&mut self, c: char, buffer: &mut Vec<u8>)
        requires
            old(self).wf(),
        ensures
            final(self).wf(),
            final(self).model() == (if old(self).model().log_type is Output {
                Self::output_char_step(old(self).model(), c, old(self).capacity_spec() as int)
            } else if c == '\n' {
                let committed = ConsoleModel {
                    log_type: LogType::Output,
                    cursor_x: 0,
                    input: Seq::<char>::empty(),
                    ..old(self).model()
                };
                let replayed = Self::process_output_spec(
                    committed,
                    old(self).model().input.push('\n'),
                    0,
                    old(self).screen_cols(),
                    old(self).screen_rows(),
                    old(self).capacity_spec() as int,
                );
                ConsoleModel { log_type: LogType::UserInput, ..replayed }
            } else {
                Self::input_char_step(old(self).model(), c, old(self).screen_cols())
            }),
            final(self).geometry_unchanged(old(self)),
            final(buffer)@.len() == old(buffer)@.len(),
    {
        match self.log_type {
            LogType::Output => {
                self.output_literal(c, buffer);
            },
            LogType::UserInput => {
                if c == '\n' {
                    self.clear_cursor_line(buffer);
                    self.log_type = LogType::Output;
                    let mut committed = self.take_input();
                    committed.push('\n');
                    self.process_chars_output(committed, buffer);
                    self.log_type = LogType::UserInput;
                } else {
                    self.input_literal(c, buffer);
                }
            },
        }
    }

    /// Feeds a string through the console: escapes decode per the ANSI
    /// grammar and take effect, literal characters are drawn and recorded,
    /// and a newline in input mode commits the pending line. Exactly
    /// `process_spec` over the string's characters.
    pub fn process_string(&mut self, s: &str, buffer: &mut Vec<u8>)
        requires
            old(self).wf(),
        ensures
            final(self).wf(),
            final(self).model() == Self::process_spec(
                old(self).model(),
                s@,
                0,
                old(self).screen_cols(),
                old(self).screen_rows(),
                old(self).capacity_spec() as int,
            ),
            final(self).geometry_unchanged(old(self)),
            final(buffer)@.len() == old(buffer)@.len(),
    {
        let len = s.unicode_len();
        let mut chars: Vec<char> = Vec::new();
        let mut i: usize = 0;

        while i < len
            invariant
                0 <= i <= len,
                len == s@.len(),
                chars@ =~= s@.take(i as int),
            decreases len - i,
        {
            chars.push(s.get_char(i));
            i = i + 1;
        }

        proof {
            assert(chars@ =~= s@);
        }

        self.process_chars(chars, buffer);
    }
}


/// The characters one scrollback cell replays to.
pub open spec fn cell_chars(cell: CacheCell) -> Seq<char> {
    match cell {
        CacheCell::Char(c) => seq![c],
        CacheCell::AnsiEscape(raw) => raw,
    }
}

/// The characters one scrollback line replays to.
pub open spec fn line_chars(line: Seq<CacheCell>) -> Seq<char>
    decreases line.len(),
{
    if line.len() == 0 {
        Seq::<char>::empty()
    } else {
        line_chars(line.drop_last()) + cell_chars(line.last())
    }
}

/// The characters the whole scrollback replays to, lines separated by
/// newlines.
pub open spec fn scrollback_chars(lines: Seq<Seq<CacheCell>>) -> Seq<char>
    decreases lines.len(),
{
    if lines.len() == 0 {
        Seq::<char>::empty()
    } else if lines.len() == 1 {
        line_chars(lines[0])
    } else {
        scrollback_chars(lines.drop_last()) + seq!['\n'] + line_chars(lines.last())
    }
}

/// A stream that replays faithfully: it holds no backspace, and every ESC
/// in it opens an escape sequence that decodes.
pub open spec fn replayable_stream(s: Seq<char>, i: int) -> bool
    decreases s.len() - i when 0 <= i <= s.len()
{
    if i >= s.len() {
        true
    } else {
        match crate::ansi::parse_ansi(s, i) {
            Some((a, j)) => {
                let j2 = if i < j && j <= s.len() {
                    j
                } else {
                    i + 1
                };
                replayable_stream(s, j2)
            },
            None => s[i] != '\x08' && s[i] != crate::ansi::esc_char() && replayable_stream(
                s,
                i + 1,
            ),
        }
    }
}

/// How many line feeds the processing of a stream performs: the newlines
/// that stand outside escape sequences.
pub open spec fn feed_count(s: Seq<char>, i: int) -> int
    decreases s.len() - i when 0 <= i <= s.len()
{
    if i >= s.len() {
        0
    } else {
        match crate::ansi::parse_ansi(s, i) {
            Some((a, j)) => {
                let j2 = if i < j && j <= s.len() {
                    j
                } else {
                    i + 1
                };
                feed_count(s, j2)
            },
            None => (if s[i] == '\n' {
                1int
            } else {
                0int
            }) + feed_count(s, i + 1),
        }
    }
}

/// Appending one cell to the last line appends exactly its characters to
/// the replay.
proof fn lemma_scrollback_append_cell(lines: Seq<Seq<CacheCell>>, cell: CacheCell)
    requires
        lines.len() >= 1,
    ensures
        scrollback_chars(lines.update(lines.len() - 1, lines.last().push(cell)))
            =~= scrollback_chars(lines) + cell_chars(cell),
{
    let updated = lines.update(lines.len() - 1, lines.last().push(cell));
    assert(lines.last().push(cell).drop_last() =~= lines.last());
    if lines.len() == 1 {
        assert(updated[0] == lines.last().push(cell));
    } else {
        assert(updated.drop_last() =~= lines.drop_last());
        assert(updated.last() == lines.last().push(cell));
    }
}

/// Finishing a line without eviction appends exactly one newline to the
/// replay.
proof fn lemma_scrollback_push_line(lines: Seq<Seq<CacheCell>>)
    requires
        lines.len() >= 1,
    ensures
        scrollback_chars(lines.push(Seq::<CacheCell>::empty())) =~= scrollback_chars(lines)
            + seq!['\n'],
{
    let pushed = lines.push(Seq::<CacheCell>::empty());
    assert(pushed.drop_last() =~= lines);
    assert(line_chars(pushed.last()) =~= Seq::<char>::empty());
}

/// One decoded escape in output mode appends exactly its raw characters
/// to the replay and touches nothing else the replay depends on.
proof fn lemma_round_trip_escape(m: ConsoleModel, a: Ansi, raw: Seq<char>, cols: int, rows: int)
    requires
        m.log_type is Output,
        m.lines.len() >= 1,
    ensures
        ConsoleContainer::ansi_step(m, a, raw, cols, rows).log_type is Output,
        ConsoleContainer::ansi_step(m, a, raw, cols, rows).lines.len() == m.lines.len(),
        scrollback_chars(ConsoleContainer::ansi_step(m, a, raw, cols, rows).lines)
            =~= scrollback_chars(m.lines) + raw,
{
    let stepped = ConsoleContainer::ansi_step(m, a, raw, cols, rows);
    assert(stepped.lines == m.lines.update(
        m.lines.len() - 1,
        m.lines.last().push(CacheCell::AnsiEscape(raw)),
    ));
    lemma_scrollback_append_cell(m.lines, CacheCell::AnsiEscape(raw));
}

/// One literal character in output mode appends exactly itself to the
/// replay, provided it is not a backspace and no eviction happens.
proof fn lemma_round_trip_literal(m: ConsoleModel, c: char, capacity: int)
    requires
        m.log_type is Output,
        m.lines.len() >= 1,
        c != '\x08',
        c == '\n' ==> m.lines.len() < capacity,
    ensures
        ConsoleContainer::output_char_step(m, c, capacity).log_type is Output,
        ConsoleContainer::output_char_step(m, c, capacity).lines.len() == m.lines.len() + (
        if c == '\n' {
            1int
        } else {
            0int
        }),
        scrollback_chars(ConsoleContainer::output_char_step(m, c, capacity).lines)
            =~= scrollback_chars(m.lines) + seq![c],
{
    let stepped = ConsoleContainer::output_char_step(m, c, capacity);
    if c == '\n' {
        assert(stepped.lines == m.lines.push(Seq::<CacheCell>::empty()));
        lemma_scrollback_push_line(m.lines);
    } else {
        assert(stepped.lines == m.lines.update(
            m.lines.len() - 1,
            m.lines.last().push(CacheCell::Char(c)),
        ));
        lemma_scrollback_append_cell(m.lines, CacheCell::Char(c));
    }
}

/// Law (the round trip): emitting a backspace-free stream whose escapes
/// all decode, in output mode and without overflowing the scrollback,
/// appends exactly that stream to the scrollback's replay. Reading the
/// cache back — characters and recorded escape bytes alike — reproduces
/// the emitted text.
pub proof fn lemma_output_round_trip(
    m: ConsoleModel,
    s: Seq<char>,
    i: int,
    cols: int,
    rows: int,
    capacity: int,
)
    requires
        0 <= i <= s.len(),
        m.log_type is Output,
        m.lines.len() >= 1,
        replayable_stream(s, i),
        m.lines.len() + feed_count(s, i) <= capacity,
    ensures
        scrollback_chars(
            ConsoleContainer::process_output_spec(m, s, i, cols, rows, capacity).lines,
        ) =~= scrollback_chars(m.lines) + s.skip(i),
    decreases s.len() - i,
{
    if i >= s.len() {
        assert(s.skip(i) =~= Seq::<char>::empty());
    } else {
        match crate::ansi::parse_ansi(s, i) {
            Some((a, j)) => {
                crate::ansi::lemma_parse_ansi_advances(s, i);
                assert(replayable_stream(s, j));
                assert(feed_count(s, i) == feed_count(s, j));
                let raw = s.subrange(i, j);
                let stepped = ConsoleContainer::ansi_step(m, a, raw, cols, rows);
                lemma_round_trip_escape(m, a, raw, cols, rows);
                lemma_output_round_trip(stepped, s, j, cols, rows, capacity);
                assert((scrollback_chars(m.lines) + raw) + s.skip(j) =~= scrollback_chars(
                    m.lines,
                ) + s.skip(i));
            },
            None => {
                let c = s[i];
                assert(c != '\x08' && c != crate::ansi::esc_char());
                assert(replayable_stream(s, i + 1));
                lemma_feed_count_bounds(s, i + 1);
                assert(feed_count(s, i) == (if c == '\n' {
                    1int
                } else {
                    0int
                }) + feed_count(s, i + 1));
                let stepped = ConsoleContainer::output_char_step(m, c, capacity);
                lemma_round_trip_literal(m, c, capacity);
                lemma_output_round_trip(stepped, s, i + 1, cols, rows, capacity);
                assert((scrollback_chars(m.lines) + seq![c]) + s.skip(i + 1)
                    =~= scrollback_chars(m.lines) + s.skip(i));
            },
        }
    }
}

/// Every traversal counts at least no line feeds.
proof fn lemma_feed_count_bounds(s: Seq<char>, i: int)
    requires
        0 <= i <= s.len(),
    ensures
        feed_count(s, i) >= 0,
    decreases s.len() - i,
{
    if i < s.len() {
        match crate::ansi::parse_ansi(s, i) {
            Some((a, j)) => {
                let j2 = if i < j && j <= s.len() {
                    j
                } else {
                    i + 1
                };
                lemma_feed_count_bounds(s, j2);
            },
            None => {
                lemma_feed_count_bounds(s, i + 1);
            },
        }
    }
}

} // verus!
