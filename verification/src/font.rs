//! The font boundary: one glyph record per character code, and the
//! validation pass that reports malformed glyphs without stopping anything.

use vstd::prelude::*;

verus! {

/// Cell width of the font, in pixels before scaling.
pub const FONT_WIDTH: u16 = 7;

/// Cell height of the font, in pixels before scaling.
pub const FONT_HEIGHT: u16 = 15;

/// Integer scale applied to every glyph pixel.
pub const FONT_SCALE: u16 = 1;

/// One glyph: its character, its size, its offset inside the cell, and a
/// row-major bitmap of which pixels are foreground.
#[derive(Debug, Clone)]
pub struct FontGlyph {
    pub charlie: char,
    pub width: u16,
    pub height: u16,
    pub off_x: isize,
    pub off_y: isize,
    pub display: Vec<bool>,
}

impl FontGlyph {
    pub fn new(charlie: char, dimensions: (u16, u16), offset: (isize, isize), display: Vec<
        bool,
    >) -> (g: Self)
        ensures
            g.charlie == charlie,
            g.width == dimensions.0,
            g.height == dimensions.1,
            g.off_x == offset.0,
            g.off_y == offset.1,
            g.display@ == display@,
    {
        FontGlyph {
            charlie,
            width: dimensions.0,
            height: dimensions.1,
            off_x: offset.0,
            off_y: offset.1,
            display,
        }
    }

    /// A glyph fits its font when its bitmap matches its size and it stays
    /// inside a `max_width` by `max_height` cell.
    pub open spec fn fits(&self, max_width: u16, max_height: u16) -> bool {
        &&& self.width as int * self.height as int == self.display@.len()
        &&& self.width <= max_width
        &&& self.height <= max_height
        &&& self.off_x >= 0
        &&& self.off_y >= 0
        &&& self.off_x + self.width <= max_width
        &&& self.off_y + self.height <= max_height
    }
}

/// What a validation pass can hold against one glyph.
#[derive(Debug, Clone, Copy, PartialEq, Eq, Structural)]
pub enum GlyphFaultKind {
    /// The bitmap's length is not width times height.
    BitmapSize,
    /// Wider than the cell.
    TooWide,
    /// Taller than the cell.
    TooTall,
    /// The x offset is negative.
    OffsetXNegative,
    /// The y offset is negative.
    OffsetYNegative,
    /// Offset plus width leaves the cell.
    OverflowsRight,
    /// Offset plus height leaves the cell.
    OverflowsBottom,
}

/// One reported violation: which glyph, and what was wrong with it.
#[derive(Debug, Clone, Copy)]
pub struct GlyphFault {
    pub index: usize,
    pub kind: GlyphFaultKind,
}

/// Whether a fault kind truly holds of a glyph.
pub open spec fn fault_holds(g: &FontGlyph, max_width: u16, max_height: u16, kind: GlyphFaultKind) -> bool {
    match kind {
        GlyphFaultKind::BitmapSize => g.width as int * g.height as int != g.display@.len(),
        GlyphFaultKind::TooWide => g.width > max_width,
        GlyphFaultKind::TooTall => g.height > max_height,
        GlyphFaultKind::OffsetXNegative => g.off_x < 0,
        GlyphFaultKind::OffsetYNegative => g.off_y < 0,
        GlyphFaultKind::OverflowsRight => g.off_x + g.width > max_width,
        GlyphFaultKind::OverflowsBottom => g.off_y + g.height > max_height,
    }
}

/// Whether one rule holds against one glyph.
fn fault_check(glyph: &FontGlyph, max_width: u16, max_height: u16, kind: GlyphFaultKind) -> (r:
    bool)
    ensures
        r == fault_holds(glyph, max_width, max_height, kind),
{
    match kind {
        GlyphFaultKind::BitmapSize => {
            proof {
                assert(glyph.width as int * glyph.height as int <= 0xFFFE_0001)
                    by (nonlinear_arith)
                    requires
                        glyph.width <= 0xFFFF,
                        glyph.height <= 0xFFFF,
                ;
            }
            let area: usize = (glyph.width as usize) * (glyph.height as usize);
            area != glyph.display.len()
        },
        GlyphFaultKind::TooWide => glyph.width > max_width,
        GlyphFaultKind::TooTall => glyph.height > max_height,
        GlyphFaultKind::OffsetXNegative => glyph.off_x < 0,
        GlyphFaultKind::OffsetYNegative => glyph.off_y < 0,
        GlyphFaultKind::OverflowsRight => glyph.off_x > (max_width as isize) - (glyph.width
            as isize),
        GlyphFaultKind::OverflowsBottom => glyph.off_y > (max_height as isize) - (glyph.height
            as isize),
    }
}

/// The rules, in the order the report lists them.
pub open spec fn fault_rules() -> Seq<GlyphFaultKind> {
    seq![
        GlyphFaultKind::BitmapSize,
        GlyphFaultKind::TooWide,
        GlyphFaultKind::TooTall,
        GlyphFaultKind::OffsetXNegative,
        GlyphFaultKind::OffsetYNegative,
        GlyphFaultKind::OverflowsRight,
        GlyphFaultKind::OverflowsBottom,
    ]
}

/// Checks every glyph of a table against the cell size and reports each
/// violation. Nothing is fatal. The report is empty exactly when every
/// glyph fits; every reported fault truly holds of the glyph it names; and
/// every rule that any glyph violates has a matching report entry.
pub fn validate_fonts(fonts: &Vec<FontGlyph>, max_width: u16, max_height: u16) -> (report: Vec<
    GlyphFault,
>)
    ensures
        report@.len() == 0 <==> (forall|i: int|
            0 <= i < fonts@.len() ==> (#[trigger] fonts@[i]).fits(max_width, max_height)),
        forall|k: int|
            0 <= k < report@.len() ==> {
                let fault = #[trigger] report@[k];
                fault.index < fonts@.len() && fault_holds(
                    &fonts@[fault.index as int],
                    max_width,
                    max_height,
                    fault.kind,
                )
            },
        forall|i: int, kind: GlyphFaultKind|
            0 <= i < fonts@.len() && #[trigger] fault_holds(
                &fonts@[i],
                max_width,
                max_height,
                kind,
            ) ==> exists|k: int|
                0 <= k < report@.len() && (#[trigger] report@[k]) == (GlyphFault {
                    index: i as usize,
                    kind,
                }),
{
    let kinds: [GlyphFaultKind; 7] = [
        GlyphFaultKind::BitmapSize,
        GlyphFaultKind::TooWide,
        GlyphFaultKind::TooTall,
        GlyphFaultKind::OffsetXNegative,
        GlyphFaultKind::OffsetYNegative,
        GlyphFaultKind::OverflowsRight,
        GlyphFaultKind::OverflowsBottom,
    ];
    proof {
        assert(kinds@ =~= fault_rules());
    }

    let mut report: Vec<GlyphFault> = Vec::new();
    let mut i: usize = 0;

    while i < fonts.len()
        invariant
            0 <= i <= fonts@.len(),
            kinds@ =~= fault_rules(),
            report@.len() == 0 <==> (forall|j: int|
                0 <= j < i ==> (#[trigger] fonts@[j]).fits(max_width, max_height)),
            forall|k: int|
                0 <= k < report@.len() ==> {
                    let fault = #[trigger] report@[k];
                    fault.index < fonts@.len() && fault_holds(
                        &fonts@[fault.index as int],
                        max_width,
                        max_height,
                        fault.kind,
                    )
                },
            forall|j: int, kind: GlyphFaultKind|
                0 <= j < i && #[trigger] fault_holds(&fonts@[j], max_width, max_height, kind)
                    ==> exists|k: int|
                    0 <= k < report@.len() && (#[trigger] report@[k]) == (GlyphFault {
                        index: j as usize,
                        kind,
                    }),
        decreases fonts@.len() - i,
    {
        let glyph = &fonts[i];

        let mut r: usize = 0;
        while r < 7
            invariant
                0 <= r <= 7,
                i < fonts@.len(),
                glyph == &fonts@[i as int],
                kinds@ =~= fault_rules(),
                report@.len() == 0 <==> ((forall|j: int|
                    0 <= j < i ==> (#[trigger] fonts@[j]).fits(max_width, max_height))
                    && (forall|t: int|
                    0 <= t < r ==> !fault_holds(
                        &fonts@[i as int],
                        max_width,
                        max_height,
                        #[trigger] fault_rules()[t],
                    ))),
                forall|k: int|
                    0 <= k < report@.len() ==> {
                        let fault = #[trigger] report@[k];
                        fault.index < fonts@.len() && fault_holds(
                            &fonts@[fault.index as int],
                            max_width,
                            max_height,
                            fault.kind,
                        )
                    },
                forall|j: int, kind: GlyphFaultKind|
                    0 <= j < i && #[trigger] fault_holds(&fonts@[j], max_width, max_height, kind)
                        ==> exists|k: int|
                        0 <= k < report@.len() && (#[trigger] report@[k]) == (GlyphFault {
                            index: j as usize,
                            kind,
                        }),
                forall|t: int|
                    0 <= t < r && fault_holds(
                        &fonts@[i as int],
                        max_width,
                        max_height,
                        #[trigger] fault_rules()[t],
                    ) ==> exists|k: int|
                        0 <= k < report@.len() && (#[trigger] report@[k]) == (GlyphFault {
                            index: i,
                            kind: fault_rules()[t],
                        }),
            decreases 7 - r,
        {
            let kind = kinds[r];
            if fault_check(glyph, max_width, max_height, kind) {
                let ghost report0 = report@;
                report.push(GlyphFault { index: i, kind });
                proof {
                    assert(report@[report@.len() - 1] == (GlyphFault { index: i, kind }));
                    assert forall|j: int, other: GlyphFaultKind|
                        0 <= j < i && #[trigger] fault_holds(
                            &fonts@[j],
                            max_width,
                            max_height,
                            other,
                        ) implies exists|k: int|
                            0 <= k < report@.len() && (#[trigger] report@[k]) == (GlyphFault {
                                index: j as usize,
                                kind: other,
                            }) by {
                        let k0 = choose|k: int|
                            0 <= k < report0.len() && (#[trigger] report0[k]) == (GlyphFault {
                                index: j as usize,
                                kind: other,
                            });
                        assert(report@[k0] == report0[k0]);
                    }
                    assert forall|t: int|
                        0 <= t < r + 1 && fault_holds(
                            &fonts@[i as int],
                            max_width,
                            max_height,
                            #[trigger] fault_rules()[t],
                        ) implies exists|k: int|
                            0 <= k < report@.len() && (#[trigger] report@[k]) == (GlyphFault {
                                index: i,
                                kind: fault_rules()[t],
                            }) by {
                        if t < r {
                            let k0 = choose|k: int|
                                0 <= k < report0.len() && (#[trigger] report0[k]) == (GlyphFault {
                                    index: i,
                                    kind: fault_rules()[t],
                                });
                            assert(report@[k0] == report0[k0]);
                        } else {
                            assert(report@[report@.len() - 1] == (GlyphFault {
                                index: i,
                                kind: fault_rules()[t],
                            }));
                        }
                    }
                }
            }
            r = r + 1;
        }

        proof {
            // A glyph fits exactly when none of the rules holds against it.
            assert(fonts@[i as int].fits(max_width, max_height) <==> (forall|t: int|
                0 <= t < 7 ==> !fault_holds(
                    &fonts@[i as int],
                    max_width,
                    max_height,
                    #[trigger] fault_rules()[t],
                ))) by {
                if forall|t: int|
                    0 <= t < 7 ==> !fault_holds(
                        &fonts@[i as int],
                        max_width,
                        max_height,
                        #[trigger] fault_rules()[t],
                    ) {
                    assert(!fault_holds(
                        &fonts@[i as int],
                        max_width,
                        max_height,
                        fault_rules()[0],
                    ));
                    assert(!fault_holds(
                        &fonts@[i as int],
                        max_width,
                        max_height,
                        fault_rules()[1],
                    ));
                    assert(!fault_holds(
                        &fonts@[i as int],
                        max_width,
                        max_height,
                        fault_rules()[2],
                    ));
                    assert(!fault_holds(
                        &fonts@[i as int],
                        max_width,
                        max_height,
                        fault_rules()[3],
                    ));
                    assert(!fault_holds(
                        &fonts@[i as int],
                        max_width,
                        max_height,
                        fault_rules()[4],
                    ));
                    assert(!fault_holds(
                        &fonts@[i as int],
                        max_width,
                        max_height,
                        fault_rules()[5],
                    ));
                    assert(!fault_holds(
                        &fonts@[i as int],
                        max_width,
                        max_height,
                        fault_rules()[6],
                    ));
                }
            }
            // Every kind is one of the seven rules.
            assert forall|kind: GlyphFaultKind|
                fault_holds(&fonts@[i as int], max_width, max_height, kind) implies exists|k: int|
                    0 <= k < report@.len() && (#[trigger] report@[k]) == (GlyphFault {
                        index: i,
                        kind,
                    }) by {
                let t: int = match kind {
                    GlyphFaultKind::BitmapSize => 0,
                    GlyphFaultKind::TooWide => 1,
                    GlyphFaultKind::TooTall => 2,
                    GlyphFaultKind::OffsetXNegative => 3,
                    GlyphFaultKind::OffsetYNegative => 4,
                    GlyphFaultKind::OverflowsRight => 5,
                    GlyphFaultKind::OverflowsBottom => 6,
                };
                assert(fault_rules()[t] == kind);
                assert(fault_holds(&fonts@[i as int], max_width, max_height, fault_rules()[t]));
            }
        }

        i = i + 1;
    }

    report
}

} // verus!
