//! Width/height and coordinate pairs used by the console in both cell and
//! pixel units.

use vstd::prelude::*;

verus! {

/// A (width, height) pair. Immutable view over framebuffer or screen
/// geometry; the setters exist for staged construction.
#[derive(Debug, Clone, Copy)]
pub struct Dimensions<V>(V, V);

impl<V: Copy> Dimensions<V> {
    pub fn new(width: V, height: V) -> (r: Self)
        ensures
            r.width_spec() == width,
            r.height_spec() == height,
    {
        Dimensions(width, height)
    }

    pub closed spec fn width_spec(&self) -> V {
        self.0
    }

    pub closed spec fn height_spec(&self) -> V {
        self.1
    }

    pub fn set_width(&mut self, value: V)
        ensures
            final(self).width_spec() == value,
            final(self).height_spec() == old(self).height_spec(),
    {
        self.0 = value;
    }

    pub fn set_height(&mut self, value: V)
        ensures
            final(self).width_spec() == old(self).width_spec(),
            final(self).height_spec() == value,
    {
        self.1 = value;
    }

    pub fn inner(self) -> (r: (V, V))
        ensures
            r.0 == self.width_spec(),
            r.1 == self.height_spec(),
    {
        (self.0, self.1)
    }

    pub fn width(&self) -> (r: V)
        ensures
            r == self.width_spec(),
    {
        self.0
    }

    pub fn height(&self) -> (r: V)
        ensures
            r == self.height_spec(),
    {
        self.1
    }
}

/// An (x, y) pair in cell or pixel units.
#[derive(Debug, Clone, Copy)]
pub struct Position<V>(V, V);

impl<V: Copy> Position<V> {
    pub fn new(x: V, y: V) -> (r: Self)
        ensures
            r.x_spec() == x,
            r.y_spec() == y,
    {
        Position(x, y)
    }

    pub closed spec fn x_spec(&self) -> V {
        self.0
    }

    pub closed spec fn y_spec(&self) -> V {
        self.1
    }

    pub fn set_x(&mut self, value: V)
        ensures
            final(self).x_spec() == value,
            final(self).y_spec() == old(self).y_spec(),
    {
        self.0 = value;
    }

    pub fn set_y(&mut self, value: V)
        ensures
            final(self).x_spec() == old(self).x_spec(),
            final(self).y_spec() == value,
    {
        self.1 = value;
    }

    pub fn inner(self) -> (r: (V, V))
        ensures
            r.0 == self.x_spec(),
            r.1 == self.y_spec(),
    {
        (self.0, self.1)
    }

    pub fn x(&self) -> (r: V)
        ensures
            r == self.x_spec(),
    {
        self.0
    }

    pub fn y(&self) -> (r: V)
        ensures
            r == self.y_spec(),
    {
        self.1
    }
}

impl Position<u16> {
    /// Moves right by `value` columns. The caller keeps the sum inside `u16`.
    pub fn inc_x(&mut self, value: u16)
        requires
            old(self).x_spec() + value <= u16::MAX,
        ensures
            final(self).x_spec() == old(self).x_spec() + value,
            final(self).y_spec() == old(self).y_spec(),
    {
        self.0 = self.0 + value;
    }

    /// Moves left by `value` columns. A decrement below zero is a no-op:
    /// the coordinate never wraps.
    pub fn dec_x(&mut self, value: u16)
        ensures
            final(self).x_spec() == if value <= old(self).x_spec() {
                (old(self).x_spec() - value) as u16
            } else {
                old(self).x_spec()
            },
            final(self).y_spec() == old(self).y_spec(),
    {
        if value <= self.0 {
            self.0 = self.0 - value;
        }
    }

    /// Moves down by `value` rows. The caller keeps the sum inside `u16`.
    pub fn inc_y(&mut self, value: u16)
        requires
            old(self).y_spec() + value <= u16::MAX,
        ensures
            final(self).x_spec() == old(self).x_spec(),
            final(self).y_spec() == old(self).y_spec() + value,
    {
        self.1 = self.1 + value;
    }

    /// Moves up by `value` rows. A decrement below zero is a no-op: the
    /// coordinate never wraps.
    pub fn dec_y(&mut self, value: u16)
        ensures
            final(self).x_spec() == old(self).x_spec(),
            final(self).y_spec() == if value <= old(self).y_spec() {
                (old(self).y_spec() - value) as u16
            } else {
                old(self).y_spec()
            },
    {
        if value <= self.1 {
            self.1 = self.1 - value;
        }
    }
}

impl<V: Copy + Default> Default for Position<V> {
    fn default() -> Self {
        Position(V::default(), V::default())
    }
}

impl<V: Copy + Default> Default for Dimensions<V> {
    fn default() -> Self {
        Dimensions(V::default(), V::default())
    }
}

} // verus!
