use vstd::prelude::*;

use crate::rng::sample_range;

verus! {

/// A velocity in units per tick, one component per axis.
#[derive(Clone, Copy, Debug, PartialEq, Eq, Structural)]
pub struct Velocity {
    pub x: i64,
    pub y: i64,
}

/// The velocity with its x component negated.
pub open spec fn spec_reversed_x(v: Velocity) -> Velocity {
    Velocity { x: (-v.spec_x()) as i64, y: v.y }
}

/// The velocity with its y component negated.
pub open spec fn spec_reversed_y(v: Velocity) -> Velocity {
    Velocity { x: v.x, y: (-v.spec_y()) as i64 }
}

impl Velocity {
    pub open spec fn spec_x(self) -> int {
        self.x as int
    }

    pub open spec fn spec_y(self) -> int {
        self.y as int
    }

    pub fn new(x: i64, y: i64) -> (v: Velocity)
        ensures
            v == (Velocity { x, y }),
    {
        Velocity { x, y }
    }

    /// A random initial velocity: each component is drawn uniformly from
    /// `[1, max_x)` respectively `[1, max_y)`, so the initial heading is
    /// always toward positive x and y and never slower than one unit a tick.
    pub fn random(max_x: i64, max_y: i64) -> (v: Velocity)
        requires
            1 < max_x,
            1 < max_y,
        ensures
            1 <= v.spec_x() < max_x,
            1 <= v.spec_y() < max_y,
    {
        Velocity { x: sample_range(1, max_x), y: sample_range(1, max_y) }
    }

    pub fn x(&self) -> (r: i64)
        ensures
            r == self.spec_x(),
    {
        self.x
    }

    pub fn y(&self) -> (r: i64)
        ensures
            r == self.spec_y(),
    {
        self.y
    }

    /// The squared Euclidean magnitude, exactly. The magnitude itself is
    /// usually irrational, so the square is what the library states; a caller
    /// that wants the root takes it in its own numeric domain.
    pub fn velocity_squared(&self) -> (r: i128)
        requires
            self.spec_x() != i64::MIN,
            self.spec_y() != i64::MIN,
        ensures
            r == self.spec_x() * self.spec_x() + self.spec_y() * self.spec_y(),
    {
        let x = self.x as i128;
        let y = self.y as i128;
        proof {
            assert(x * x + y * y <= i128::MAX && i128::MIN <= x * x && 0 <= x * x && 0 <= y * y)
                by (nonlinear_arith)
                requires
                    -0x7fff_ffff_ffff_ffff <= x <= 0x7fff_ffff_ffff_ffff,
                    -0x7fff_ffff_ffff_ffff <= y <= 0x7fff_ffff_ffff_ffff,
            ;
        }
        x * x + y * y
    }

    /// Negate the x component in place, as a bounce off a vertical wall.
    pub fn reverse_x(&mut self)
        requires
            old(self).spec_x() != i64::MIN,
        ensures
            *final(self) == spec_reversed_x(*old(self)),
            final(self).spec_x() == -old(self).spec_x(),
            final(self).spec_y() == old(self).spec_y(),
    {
        self.x = -self.x;
    }

    /// Negate the y component in place, as a bounce off a horizontal wall.
    pub fn reverse_y(&mut self)
        requires
            old(self).spec_y() != i64::MIN,
        ensures
            *final(self) == spec_reversed_y(*old(self)),
            final(self).spec_x() == old(self).spec_x(),
            final(self).spec_y() == -old(self).spec_y(),
    {
        self.y = -self.y;
    }
}

} // verus!
