//! The console's cursor: a cell position, a blink phase, and the pending
//! input line that is being typed but not yet committed.

use vstd::prelude::*;

use crate::geometry::{Dimensions, Position};

verus! {

/// How many timer ticks pass between blink-phase flips by default.
pub const DEFAULT_BLINK_PERIOD: usize = 100;

pub struct ConsoleCursor {
    pos: Position<u16>,

    display_time: usize,
    displayed: bool,
    blink_period: usize,

    input: Vec<char>,
}

impl ConsoleCursor {
    pub closed spec fn x_spec(&self) -> u16 {
        self.pos.x_spec()
    }

    pub closed spec fn y_spec(&self) -> u16 {
        self.pos.y_spec()
    }

    pub closed spec fn displayed_spec(&self) -> bool {
        self.displayed
    }

    pub closed spec fn time_spec(&self) -> usize {
        self.display_time
    }

    pub closed spec fn period_spec(&self) -> usize {
        self.blink_period
    }

    pub closed spec fn input_spec(&self) -> Seq<char> {
        self.input@
    }

    /// A cursor is well formed when its blink period is positive.
    pub open spec fn wf(&self) -> bool {
        self.period_spec() >= 1
    }

    pub fn new() -> (r: Self)
        ensures
            r.wf(),
            r.x_spec() == 0,
            r.y_spec() == 0,
            r.time_spec() == 0,
            r.displayed_spec() == false,
            r.period_spec() == DEFAULT_BLINK_PERIOD,
            r.input_spec() =~= Seq::<char>::empty(),
    {
        ConsoleCursor {
            pos: Position::new(0, 0),
            display_time: 0,
            displayed: false,
            blink_period: DEFAULT_BLINK_PERIOD,
            input: Vec::new(),
        }
    }

    /// Same cursor, with the blink period chosen by the caller.
    pub fn with_blink_period(blink_period: usize) -> (r: Self)
        requires
            blink_period >= 1,
        ensures
            r.wf(),
            r.x_spec() == 0,
            r.y_spec() == 0,
            r.time_spec() == 0,
            r.displayed_spec() == false,
            r.period_spec() == blink_period,
            r.input_spec() =~= Seq::<char>::empty(),
    {
        ConsoleCursor {
            pos: Position::new(0, 0),
            display_time: 0,
            displayed: false,
            blink_period,
            input: Vec::new(),
        }
    }

    /// Advances the blink phase by one timer tick; the visible flag follows
    /// the phase counter, flipping once per period.
    pub fn update(&mut self)
        requires
            old(self).wf(),
        ensures
            final(self).wf(),
            final(self).displayed_spec() == (((old(self).time_spec() as int
                / old(self).period_spec() as int) % 2) == 0),
            final(self).time_spec() == if old(self).time_spec() == usize::MAX {
                0usize
            } else {
                (old(self).time_spec() + 1) as usize
            },
            final(self).x_spec() == old(self).x_spec(),
            final(self).y_spec() == old(self).y_spec(),
            final(self).input_spec() == old(self).input_spec(),
            final(self).period_spec() == old(self).period_spec(),
    {
        self.displayed = (self.display_time / self.blink_period) % 2 == 0;
        self.display_time = self.display_time.wrapping_add(1);
    }

    /// Toggles the visible flag and reports the new value.
    pub fn toggle_displayed(&mut self) -> (r: bool)
        ensures
            final(self).displayed_spec() == !old(self).displayed_spec(),
            r == final(self).displayed_spec(),
            final(self).x_spec() == old(self).x_spec(),
            final(self).y_spec() == old(self).y_spec(),
            final(self).input_spec() == old(self).input_spec(),
            final(self).time_spec() == old(self).time_spec(),
            final(self).period_spec() == old(self).period_spec(),
    {
        self.displayed = !self.displayed;
        self.displayed
    }

    pub fn is_displayed(&self) -> (r: bool)
        ensures
            r == self.displayed_spec(),
    {
        self.displayed
    }

    pub fn pos(&self) -> (r: Position<u16>)
        ensures
            r.x_spec() == self.x_spec(),
            r.y_spec() == self.y_spec(),
    {
        self.pos
    }

    pub fn set_x(&mut self, value: u16)
        ensures
            final(self).x_spec() == value,
            final(self).y_spec() == old(self).y_spec(),
            final(self).input_spec() == old(self).input_spec(),
            final(self).displayed_spec() == old(self).displayed_spec(),
            final(self).time_spec() == old(self).time_spec(),
            final(self).period_spec() == old(self).period_spec(),
    {
        self.pos.set_x(value);
    }

    pub fn set_y(&mut self, value: u16)
        ensures
            final(self).x_spec() == old(self).x_spec(),
            final(self).y_spec() == value,
            final(self).input_spec() == old(self).input_spec(),
            final(self).displayed_spec() == old(self).displayed_spec(),
            final(self).time_spec() == old(self).time_spec(),
            final(self).period_spec() == old(self).period_spec(),
    {
        self.pos.set_y(value);
    }

    /// Drops the last pending input character and steps the column back one
    /// cell. At the boundary both are no-ops: an empty input line stays
    /// empty, and column zero stays column zero.
    pub fn backspace(&mut self)
        ensures
            final(self).input_spec() == if old(self).input_spec().len() == 0 {
                old(self).input_spec()
            } else {
                old(self).input_spec().drop_last()
            },
            final(self).x_spec() == if old(self).x_spec() == 0 {
                0u16
            } else {
                (old(self).x_spec() - 1) as u16
            },
            final(self).y_spec() == old(self).y_spec(),
            final(self).displayed_spec() == old(self).displayed_spec(),
            final(self).time_spec() == old(self).time_spec(),
            final(self).period_spec() == old(self).period_spec(),
    {
        self.input.pop();

        if self.pos.x() != 0 {
            self.pos.dec_x(1);
        }
    }

    /// Hands the pending input line to the caller, leaving it empty, and
    /// returns the column to zero.
    pub fn take_input(&mut self) -> (r: Vec<char>)
        ensures
            r@ == old(self).input_spec(),
            final(self).input_spec() =~= Seq::<char>::empty(),
            final(self).x_spec() == 0,
            final(self).y_spec() == old(self).y_spec(),
            final(self).displayed_spec() == old(self).displayed_spec(),
            final(self).time_spec() == old(self).time_spec(),
            final(self).period_spec() == old(self).period_spec(),
    {
        self.pos.set_x(0);

        let mut taken: Vec<char> = Vec::new();
        core::mem::swap(&mut taken, &mut self.input);
        taken
    }

    /// Appends one character to the pending input line and advances the
    /// column, unless the cursor already sits at the last column of the
    /// screen, where it stays put.
    pub fn insert_input(&mut self, value: char, display_dimensions: Dimensions<u16>)
        ensures
            final(self).input_spec() == old(self).input_spec().push(value),
            final(self).x_spec() == if old(self).x_spec() + 1
                >= display_dimensions.width_spec() {
                old(self).x_spec()
            } else {
                (old(self).x_spec() + 1) as u16
            },
            final(self).y_spec() == old(self).y_spec(),
            final(self).displayed_spec() == old(self).displayed_spec(),
            final(self).time_spec() == old(self).time_spec(),
            final(self).period_spec() == old(self).period_spec(),
    {
        self.input.push(value);

        if self.pos.x() as u32 + 1 >= display_dimensions.width() as u32 {
            // The input line has reached the right edge of the screen; the
            // cursor holds its column.
        } else {
            self.pos.inc_x(1);
        }
    }

    /// Where `move_me` puts one axis: a positive delta adds, capped at
    /// `u16::MAX`; a negative delta subtracts only when the axis is at least
    /// as large as the delta's magnitude, else nothing moves.
    pub open spec fn moved_axis(value: u16, delta: int) -> u16 {
        if delta > 0 {
            if value + delta > u16::MAX {
                u16::MAX
            } else {
                (value + delta) as u16
            }
        } else if delta < 0 && value >= -delta {
            (value + delta) as u16
        } else {
            value
        }
    }

    /// Moves the cursor by a signed cell delta on each axis, without any
    /// knowledge of the screen: growth saturates at `u16::MAX`, and a
    /// decrement larger than the current value leaves the axis unchanged.
    pub fn move_me(&mut self, horiz: i32, vert: i32)
        ensures
            final(self).x_spec() == Self::moved_axis(old(self).x_spec(), horiz as int),
            final(self).y_spec() == Self::moved_axis(old(self).y_spec(), vert as int),
            final(self).input_spec() == old(self).input_spec(),
            final(self).displayed_spec() == old(self).displayed_spec(),
            final(self).time_spec() == old(self).time_spec(),
            final(self).period_spec() == old(self).period_spec(),
    {
        let new_x = Self::move_axis(self.pos.x(), horiz);
        self.pos.set_x(new_x);

        let new_y = Self::move_axis(self.pos.y(), vert);
        self.pos.set_y(new_y);
    }

    fn move_axis(value: u16, delta: i32) -> (r: u16)
        ensures
            r == Self::moved_axis(value, delta as int),
    {
        if delta > 0 {
            let sum: u32 = value as u32 + delta as u32;
            if sum > u16::MAX as u32 {
                u16::MAX
            } else {
                sum as u16
            }
        } else if delta < 0 {
            let magnitude: u32 = if delta == i32::MIN {
                0x8000_0000u32
            } else {
                (-delta) as u32
            };

            if value as u32 >= magnitude {
                value - (magnitude as u16)
            } else {
                value
            }
        } else {
            value
        }
    }
}

impl Default for ConsoleCursor {
    /// A fresh cursor: origin, blink phase zero, default blink period, no
    /// pending input.
    fn default() -> (r: Self)
        ensures
            r.wf(),
            r.x_spec() == 0,
            r.y_spec() == 0,
            r.time_spec() == 0,
            r.displayed_spec() == false,
            r.period_spec() == DEFAULT_BLINK_PERIOD,
            r.input_spec() =~= Seq::<char>::empty(),
    {
        ConsoleCursor::new()
    }
}

} // verus!
