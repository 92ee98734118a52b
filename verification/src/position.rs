use vstd::prelude::*;

use crate::rng::sample_range;

verus! {

/// What a coordinate becomes after a move: kept where it lands when that is
/// inside `[0, hi]`, otherwise snapped to the end that was exceeded. A hard
/// clamp, not a bounce: reversing velocity on a wall hit is the arena's job.
pub open spec fn spec_clamp(v: int, hi: int) -> int {
    if v > hi {
        hi
    } else if v < 0 {
        0
    } else {
        v
    }
}

/// A point in the plane together with the box `[0, max_x] x [0, max_y]` that
/// every subsequent move is clamped to. Construction does not check the
/// point against the box; `move_distance` establishes and then maintains it.
#[derive(Clone, Copy, Debug, PartialEq, Eq, Structural)]
pub struct Position {
    pub x: i64,
    pub y: i64,
    pub max_x: i64,
    pub max_y: i64,
}

/// The position after a move by `(dx, dy)`, each axis independently clamped.
pub open spec fn spec_moved(p: Position, dx: int, dy: int) -> Position {
    Position {
        x: spec_clamp(p.x + dx, p.max_x as int) as i64,
        y: spec_clamp(p.y + dy, p.max_y as int) as i64,
        max_x: p.max_x,
        max_y: p.max_y,
    }
}

impl Position {
    pub open spec fn spec_x(self) -> int {
        self.x as int
    }

    pub open spec fn spec_y(self) -> int {
        self.y as int
    }

    pub open spec fn spec_max_x(self) -> int {
        self.max_x as int
    }

    pub open spec fn spec_max_y(self) -> int {
        self.max_y as int
    }

    /// The clamp box is a real box: both upper bounds are at least zero.
    pub open spec fn wf(self) -> bool {
        0 <= self.spec_max_x() && 0 <= self.spec_max_y()
    }

    pub fn new(x: i64, y: i64, max_x: i64, max_y: i64) -> (p: Position)
        requires
            0 <= max_x,
            0 <= max_y,
        ensures
            p == (Position { x, y, max_x, max_y }),
            p.wf(),
    {
        Position { x, y, max_x, max_y }
    }

    /// A random spawn point: each coordinate is drawn uniformly from
    /// `[1, max_width)` respectively `[1, max_height)` — at least one unit
    /// off the origin — while future moves stay clamped to the full box
    /// `[0, max_x] x [0, max_y]`. This lets a caller confine the initial
    /// spawn to a sub-region of the arena.
    pub fn random(max_width: i64, max_height: i64, max_x: i64, max_y: i64) -> (p: Position)
        requires
            1 < max_width,
            1 < max_height,
            0 <= max_x,
            0 <= max_y,
        ensures
            1 <= p.spec_x() < max_width,
            1 <= p.spec_y() < max_height,
            p.spec_max_x() == max_x,
            p.spec_max_y() == max_y,
            p.wf(),
    {
        let x = sample_range(1, max_width);
        let y = sample_range(1, max_height);
        Position::new(x, y, max_x, max_y)
    }

    pub fn x(&self) -> (r: i64)
        ensures
            r == self.spec_x(),
    {
        self.x
    }

    pub fn y(&self) -> (r: i64)
        ensures
            r == self.spec_y(),
    {
        self.y
    }

    /// Move by `(x, y)`, each axis independently clamped to its bounds.
    /// After any move the point lies inside the box.
    pub fn move_distance(&mut self, x: i64, y: i64)
        requires
            old(self).wf(),
        ensures
            *final(self) == spec_moved(*old(self), x as int, y as int),
            final(self).spec_x() == spec_clamp(old(self).spec_x() + x, old(self).spec_max_x()),
            final(self).spec_y() == spec_clamp(old(self).spec_y() + y, old(self).spec_max_y()),
            final(self).max_x == old(self).max_x,
            final(self).max_y == old(self).max_y,
            0 <= final(self).spec_x() <= final(self).spec_max_x(),
            0 <= final(self).spec_y() <= final(self).spec_max_y(),
            final(self).wf(),
    {
        let new_x: i128 = self.x as i128 + x as i128;
        let new_y: i128 = self.y as i128 + y as i128;
        self.x = if new_x > self.max_x as i128 {
            self.max_x
        } else if new_x < 0 {
            0
        } else {
            new_x as i64
        };
        self.y = if new_y > self.max_y as i128 {
            self.max_y
        } else if new_y < 0 {
            0
        } else {
            new_y as i64
        };
    }
}

} // verus!
