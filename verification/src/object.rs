use vstd::prelude::*;

use crate::position::{spec_clamp, Position};
use crate::velocity::Velocity;
use vstd::arithmetic::div_mod::{
    lemma_div_basics, lemma_div_by_multiple, lemma_div_is_ordered, lemma_div_pos_is_pos,
    lemma_fundamental_div_mod, lemma_mod_bound,
};
use vstd::arithmetic::mul::{
    lemma_mul_is_associative, lemma_mul_is_commutative, lemma_mul_is_distributive_add,
    lemma_mul_is_distributive_add_other_way, lemma_mul_nonnegative, lemma_mul_unary_negation,
};

verus! {

/// Velocity components that enter an elastic collision must lie within this
/// bound. It keeps every intermediate product of the collision formula inside
/// the 128-bit word, and since a collision can grow a component at most
/// threefold, the result still fits an `i64`.
pub const V_LIMIT: i64 = 0x2000_0000_0000_0000;

/// Integer division truncated toward zero. (The ghost `/` on `int` rounds
/// toward negative infinity; executable code here truncates, so the
/// specification says so exactly.)
pub open spec fn spec_div_trunc(n: int, d: int) -> int {
    if n >= 0 {
        n / d
    } else {
        -((-n) / d)
    }
}

/// The one-dimensional elastic-collision law, applied independently per axis:
/// the new velocity of the body with mass `m1` and velocity `v1` after
/// meeting the body with mass `m2` and velocity `v2`. The partner's new
/// velocity is `spec_elastic_velocity(m2, m1, v2, v1)`.
pub open spec fn spec_elastic_velocity(m1: int, m2: int, v1: int, v2: int) -> int {
    spec_div_trunc((m1 - m2) * v1 + 2 * m2 * v2, m1 + m2)
}

/// A product of sums, written out term by term.
proof fn lemma_expand_product(x: int, y: int, z: int, w: int)
    ensures
        (x + y) * (z + w) == x * z + x * w + y * z + y * w,
{
    lemma_mul_is_distributive_add_other_way(z + w, x, y);
    lemma_mul_is_distributive_add(x, z, w);
    lemma_mul_is_distributive_add(y, z, w);
}

/// Products of products regroup pairwise.
proof fn lemma_mul_rearrange(x: int, y: int, z: int, w: int)
    ensures
        (x * y) * (z * w) == (x * z) * (y * w),
{
    lemma_mul_is_associative(x, y, z * w);
    lemma_mul_is_associative(y, z, w);
    lemma_mul_is_commutative(y, z);
    lemma_mul_is_associative(z, y, w);
    lemma_mul_is_associative(x, z, y * w);
}

/// The square of `c*u + 2*d*w`, written out in monomials.
proof fn lemma_square_binomial(c: int, d: int, u: int, w: int)
    ensures
        (c * u + 2 * d * w) * (c * u + 2 * d * w) == (c * c) * (u * u) + 4 * ((c * d) * (u * w))
            + 4 * ((d * d) * (w * w)),
{
    let p = c * u;
    let q = 2 * d * w;
    lemma_expand_product(p, q, p, q);
    lemma_mul_rearrange(c, u, c, u);
    lemma_mul_rearrange(c, u, 2 * d, w);
    lemma_mul_is_associative(c, 2, d);
    lemma_mul_is_commutative(c, 2);
    lemma_mul_is_associative(2, c, d);
    lemma_mul_is_associative(2, c * d, u * w);
    lemma_mul_is_commutative(q, p);
    lemma_mul_rearrange(2 * d, w, 2 * d, w);
    lemma_mul_is_associative(2 * d, 2, d);
    lemma_mul_is_commutative(2 * d, 2);
    lemma_mul_is_associative(2, 2, d);
    lemma_mul_is_associative(4, d, d);
    lemma_mul_is_associative(4, d * d, w * w);
}

/// A factor distributed over a three-term sum whose outer terms carry a
/// constant four.
proof fn lemma_scale_trinomial(m: int, t1: int, t2: int, t3: int)
    ensures
        m * (t1 + 4 * t2 + 4 * t3) == m * t1 + 4 * (m * t2) + 4 * (m * t3),
{
    lemma_mul_is_distributive_add(m, t1 + 4 * t2, 4 * t3);
    lemma_mul_is_distributive_add(m, t1, 4 * t2);
    lemma_mul_is_associative(m, 4, t2);
    lemma_mul_is_commutative(m, 4);
    lemma_mul_is_associative(4, m, t2);
    lemma_mul_is_associative(m, 4, t3);
    lemma_mul_is_associative(4, m, t3);
}

/// How truncating division decomposes: the remainder `n - d * q` is strictly
/// smaller than `d` in magnitude, and `d * q` never overshoots `n` — it lies
/// between `0` and `n` whichever sign `n` has.
pub proof fn lemma_div_trunc_parts(n: int, d: int)
    requires
        1 <= d,
    ensures
        ({
            let q = spec_div_trunc(n, d);
            &&& -d < n - d * q < d
            &&& 0 <= n ==> 0 <= d * q <= n
            &&& n < 0 ==> n <= d * q <= 0
        }),
{
    if n >= 0 {
        lemma_fundamental_div_mod(n, d);
        lemma_mod_bound(n, d);
        lemma_div_pos_is_pos(n, d);
        lemma_mul_nonnegative(d, n / d);
    } else {
        lemma_fundamental_div_mod(-n, d);
        lemma_mod_bound(-n, d);
        lemma_div_pos_is_pos(-n, d);
        lemma_mul_nonnegative(d, (-n) / d);
        lemma_mul_unary_negation(d, (-n) / d);
    }
}

/// Truncating division keeps the quotient inside a bound that the numerator
/// respects `d`-fold.
pub proof fn lemma_div_trunc_bound(n: int, d: int, b: int)
    requires
        1 <= d,
        0 <= b,
        -(d * b) <= n <= d * b,
    ensures
        -b <= spec_div_trunc(n, d) <= b,
{
    lemma_div_by_multiple(b, d);
    vstd::arithmetic::mul::lemma_mul_is_commutative(b, d);
    if n >= 0 {
        lemma_div_pos_is_pos(n, d);
        lemma_div_is_ordered(n, d * b, d);
    } else {
        lemma_div_pos_is_pos(-n, d);
        lemma_div_is_ordered(-n, d * b, d);
    }
}

/// An elastic collision can grow a velocity component at most threefold
/// beyond the larger of the two incoming magnitudes.
pub proof fn lemma_elastic_velocity_bound(m1: int, m2: int, v1: int, v2: int, b: int)
    requires
        1 <= m1,
        1 <= m2,
        0 <= b,
        -b <= v1 <= b,
        -b <= v2 <= b,
    ensures
        -3 * b <= spec_elastic_velocity(m1, m2, v1, v2) <= 3 * b,
{
    let s = m1 + m2;
    let n1 = (m1 - m2) * v1 + 2 * m2 * v2;
    assert(-(s * (3 * b)) <= n1 <= s * (3 * b)) by (nonlinear_arith)
        requires
            1 <= m1,
            1 <= m2,
            -b <= v1 <= b,
            -b <= v2 <= b,
            s == m1 + m2,
            n1 == (m1 - m2) * v1 + 2 * m2 * v2,
    ;
    lemma_div_trunc_bound(n1, s, 3 * b);
}

/// Between equal masses the elastic law is a full momentum exchange: each
/// body leaves with exactly the other's incoming velocity, no truncation
/// loss at all.
pub proof fn lemma_equal_masses_swap(m: int, v1: int, v2: int)
    requires
        1 <= m,
    ensures
        spec_elastic_velocity(m, m, v1, v2) == v2,
{
    let d = m + m;
    let n = (m - m) * v1 + 2 * m * v2;
    assert(n == d * v2) by (nonlinear_arith)
        requires
            n == (m - m) * v1 + 2 * m * v2,
            d == m + m,
    ;
    if v2 >= 0 {
        lemma_div_by_multiple(v2, d);
        lemma_mul_is_commutative(v2, d);
    } else {
        lemma_div_by_multiple(-v2, d);
        lemma_mul_is_commutative(-v2, d);
        lemma_mul_unary_negation(d, v2);
        assert(-n == d * (-v2));
    }
}

/// The elastic-collision law conserves total momentum per axis, up to the
/// one-unit-per-body truncation slack: the new total `m1*v1' + m2*v2'`
/// differs from the old `m1*v1 + m2*v2` by strictly less than `m1 + m2`
/// units. With exact quotients (as with equal masses) it is conserved
/// exactly.
pub proof fn lemma_collide_conserves_momentum(m1: int, m2: int, v1: int, v2: int)
    requires
        1 <= m1,
        1 <= m2,
    ensures
        ({
            let p0 = m1 * v1 + m2 * v2;
            let p1 = m1 * spec_elastic_velocity(m1, m2, v1, v2) + m2 * spec_elastic_velocity(
                m2,
                m1,
                v2,
                v1,
            );
            -(m1 + m2) < p1 - p0 < m1 + m2
        }),
{
    let s = m1 + m2;
    let n1 = (m1 - m2) * v1 + 2 * m2 * v2;
    let n2 = (m2 - m1) * v2 + 2 * m1 * v1;
    let q1 = spec_div_trunc(n1, s);
    let q2 = spec_div_trunc(n2, s);
    let r1 = n1 - s * q1;
    let r2 = n2 - s * q2;
    let p0 = m1 * v1 + m2 * v2;
    let p1 = m1 * q1 + m2 * q2;
    lemma_div_trunc_parts(n1, s);
    lemma_div_trunc_parts(n2, s);
    assert(m1 * n1 == m1 * m1 * v1 - m1 * m2 * v1 + 2 * (m1 * m2 * v2)) by (nonlinear_arith)
        requires
            n1 == (m1 - m2) * v1 + 2 * m2 * v2,
    ;
    assert(m2 * n2 == m2 * m2 * v2 - m1 * m2 * v2 + 2 * (m1 * m2 * v1)) by (nonlinear_arith)
        requires
            n2 == (m2 - m1) * v2 + 2 * m1 * v1,
    ;
    lemma_expand_product(m1, m2, m1 * v1, m2 * v2);
    lemma_mul_is_associative(m1, m1, v1);
    lemma_mul_is_associative(m1, m2, v2);
    lemma_mul_is_associative(m2, m1, v1);
    lemma_mul_is_commutative(m2, m1);
    lemma_mul_is_associative(m2, m2, v2);
    assert(s * p0 == m1 * m1 * v1 + m1 * m2 * v2 + m1 * m2 * v1 + m2 * m2 * v2);
    assert(m1 * n1 + m2 * n2 == s * p0);
    assert(s * p1 == m1 * (s * q1) + m2 * (s * q2)) by (nonlinear_arith)
        requires
            s * p1 == s * (m1 * q1 + m2 * q2),
    ;
    assert(m1 * (s * q1) == m1 * n1 - m1 * r1) by (nonlinear_arith)
        requires
            s * q1 == n1 - r1,
    ;
    assert(m2 * (s * q2) == m2 * n2 - m2 * r2) by (nonlinear_arith)
        requires
            s * q2 == n2 - r2,
    ;
    assert(s * p1 == s * p0 - (m1 * r1 + m2 * r2));
    assert(-(s * s) < m1 * r1 + m2 * r2 < s * s) by (nonlinear_arith)
        requires
            1 <= m1,
            1 <= m2,
            s == m1 + m2,
            -s < r1 < s,
            -s < r2 < s,
    ;
    assert(-s < p1 - p0 < s) by (nonlinear_arith)
        requires
            2 <= s,
            s * p1 == s * p0 - (m1 * r1 + m2 * r2),
            -(s * s) < m1 * r1 + m2 * r2 < s * s,
    ;
}

/// The elastic-collision law never gains kinetic energy per axis: because the
/// exact law conserves `m1*v1^2 + m2*v2^2` and truncation only shrinks each
/// quotient's magnitude, the new total is at most the old one. This is what
/// keeps every velocity in a running arena bounded forever.
pub proof fn lemma_collide_energy_bounded(m1: int, m2: int, v1: int, v2: int)
    requires
        1 <= m1,
        1 <= m2,
    ensures
        ({
            let q1 = spec_elastic_velocity(m1, m2, v1, v2);
            let q2 = spec_elastic_velocity(m2, m1, v2, v1);
            m1 * q1 * q1 + m2 * q2 * q2 <= m1 * v1 * v1 + m2 * v2 * v2
        }),
{
    let s = m1 + m2;
    let ss = s * s;
    let a = m1 - m2;
    let b = m2 - m1;
    let n1 = a * v1 + 2 * m2 * v2;
    let n2 = b * v2 + 2 * m1 * v1;
    let q1 = spec_div_trunc(n1, s);
    let q2 = spec_div_trunc(n2, s);
    let xx = v1 * v1;
    let yy = v2 * v2;
    let zz = v1 * v2;
    lemma_div_trunc_parts(n1, s);
    lemma_div_trunc_parts(n2, s);
    // Expand both squared numerators into monomials.
    lemma_square_binomial(a, m2, v1, v2);
    assert(n1 * n1 == (a * a) * xx + 4 * ((a * m2) * zz) + 4 * ((m2 * m2) * yy));
    lemma_square_binomial(b, m1, v2, v1);
    lemma_mul_is_commutative(v2, v1);
    assert(n2 * n2 == (b * b) * yy + 4 * ((b * m1) * zz) + 4 * ((m1 * m1) * xx));
    // Weigh each by its mass.
    let ca = m1 * (a * a);
    let cb = m1 * (a * m2);
    let cc = m1 * (m2 * m2);
    let cd = m2 * (b * b);
    let ce = m2 * (b * m1);
    let cf = m2 * (m1 * m1);
    lemma_scale_trinomial(m1, (a * a) * xx, (a * m2) * zz, (m2 * m2) * yy);
    lemma_mul_is_associative(m1, a * a, xx);
    lemma_mul_is_associative(m1, a * m2, zz);
    lemma_mul_is_associative(m1, m2 * m2, yy);
    assert(m1 * (n1 * n1) == ca * xx + 4 * (cb * zz) + 4 * (cc * yy));
    lemma_scale_trinomial(m2, (b * b) * yy, (b * m1) * zz, (m1 * m1) * xx);
    lemma_mul_is_associative(m2, b * b, yy);
    lemma_mul_is_associative(m2, b * m1, zz);
    lemma_mul_is_associative(m2, m1 * m1, xx);
    assert(m2 * (n2 * n2) == cd * yy + 4 * (ce * zz) + 4 * (cf * xx));
    // The cross terms cancel and the square terms collect to (m1+m2)^2 each:
    // the exact per-axis law conserves m1*v1^2 + m2*v2^2.
    assert(ca + 4 * cf == ss * m1) by (nonlinear_arith)
        requires
            ca == m1 * ((m1 - m2) * (m1 - m2)),
            cf == m2 * (m1 * m1),
            ss == (m1 + m2) * (m1 + m2),
    ;
    assert(4 * cc + cd == ss * m2) by (nonlinear_arith)
        requires
            cc == m1 * (m2 * m2),
            cd == m2 * ((m2 - m1) * (m2 - m1)),
            ss == (m1 + m2) * (m1 + m2),
    ;
    assert(cb + ce == 0) by (nonlinear_arith)
        requires
            cb == m1 * ((m1 - m2) * m2),
            ce == m2 * ((m2 - m1) * m1),
    ;
    lemma_mul_is_associative(4, cf, xx);
    lemma_mul_is_distributive_add_other_way(xx, ca, 4 * cf);
    lemma_mul_is_associative(ss, m1, xx);
    lemma_mul_is_associative(4, cc, yy);
    lemma_mul_is_distributive_add_other_way(yy, 4 * cc, cd);
    lemma_mul_is_associative(ss, m2, yy);
    lemma_mul_is_distributive_add_other_way(zz, cb, ce);
    lemma_mul_is_distributive_add(ss, m1 * xx, m2 * yy);
    assert(m1 * (n1 * n1) + m2 * (n2 * n2) == ss * (m1 * xx + m2 * yy));
    // Truncation only shrinks each quotient's magnitude.
    assert((s * q1) * (s * q1) <= n1 * n1) by (nonlinear_arith)
        requires
            (0 <= s * q1 <= n1) || (n1 <= s * q1 <= 0),
    ;
    assert((s * q2) * (s * q2) <= n2 * n2) by (nonlinear_arith)
        requires
            (0 <= s * q2 <= n2) || (n2 <= s * q2 <= 0),
    ;
    let tq1 = q1 * q1;
    let tq2 = q2 * q2;
    lemma_mul_rearrange(s, q1, s, q1);
    lemma_mul_is_associative(m1, ss, tq1);
    lemma_mul_is_commutative(m1, ss);
    lemma_mul_is_associative(ss, m1, tq1);
    assert(m1 * ((s * q1) * (s * q1)) == ss * (m1 * tq1));
    lemma_mul_rearrange(s, q2, s, q2);
    lemma_mul_is_associative(m2, ss, tq2);
    lemma_mul_is_commutative(m2, ss);
    lemma_mul_is_associative(ss, m2, tq2);
    assert(m2 * ((s * q2) * (s * q2)) == ss * (m2 * tq2));
    assert(m1 * ((s * q1) * (s * q1)) <= m1 * (n1 * n1)) by (nonlinear_arith)
        requires
            1 <= m1,
            (s * q1) * (s * q1) <= n1 * n1,
    ;
    assert(m2 * ((s * q2) * (s * q2)) <= m2 * (n2 * n2)) by (nonlinear_arith)
        requires
            1 <= m2,
            (s * q2) * (s * q2) <= n2 * n2,
    ;
    lemma_mul_is_distributive_add(ss, m1 * tq1, m2 * tq2);
    assert(1 <= ss) by (nonlinear_arith)
        requires
            2 <= s,
            ss == s * s,
    ;
    assert(m1 * tq1 + m2 * tq2 <= m1 * xx + m2 * yy) by (nonlinear_arith)
        requires
            1 <= ss,
            ss * (m1 * tq1 + m2 * tq2) <= ss * (m1 * xx + m2 * yy),
    ;
    lemma_mul_is_associative(m1, q1, q1);
    lemma_mul_is_associative(m2, q2, q2);
    lemma_mul_is_associative(m1, v1, v1);
    lemma_mul_is_associative(m2, v2, v2);
}

/// Two axis-aligned boxes overlap when their projections overlap on both
/// axes, edges included: touching counts as collision.
pub open spec fn spec_overlaps(a: Object, b: Object) -> bool {
    &&& a.spec_x() <= b.spec_x() + b.spec_width()
    &&& b.spec_x() <= a.spec_x() + a.spec_width()
    &&& a.spec_y() <= b.spec_y() + b.spec_height()
    &&& b.spec_y() <= a.spec_y() + a.spec_height()
}

/// The overlap test is symmetric: whether two boxes touch does not depend on
/// which of the two asks.
pub proof fn lemma_overlaps_symmetric(a: Object, b: Object)
    ensures
        spec_overlaps(a, b) == spec_overlaps(b, a),
{
}

/// A rectangular physical body: an axis-aligned box of `width x height`
/// whose top-left corner is `position`, with a strictly positive mass and a
/// velocity in units per tick.
#[derive(Clone, Copy, Debug, PartialEq, Eq, Structural)]
pub struct Object {
    pub position: Position,
    pub width: u32,
    pub height: u32,
    pub mass: i64,
    pub velocity: Velocity,
}

/// The body one tick later: position moved by the velocity and clamped.
pub open spec fn spec_next_frame(o: Object) -> Object {
    Object {
        position: crate::position::spec_moved(
            o.position,
            o.velocity.spec_x(),
            o.velocity.spec_y(),
        ),
        ..o
    }
}

/// The body with its x velocity negated, as after a vertical-wall bounce.
pub open spec fn spec_reverse_vx(o: Object) -> Object {
    Object { velocity: crate::velocity::spec_reversed_x(o.velocity), ..o }
}

/// The body with its y velocity negated, as after a horizontal-wall bounce.
pub open spec fn spec_reverse_vy(o: Object) -> Object {
    Object { velocity: crate::velocity::spec_reversed_y(o.velocity), ..o }
}

/// Both bodies after an elastic collision: velocities exchanged per the
/// elastic law, everything else as it was.
pub open spec fn spec_collided(a: Object, b: Object) -> (Object, Object) {
    let m1 = a.spec_mass();
    let m2 = b.spec_mass();
    (
        Object {
            velocity: Velocity {
                x: spec_elastic_velocity(m1, m2, a.spec_vx(), b.spec_vx()) as i64,
                y: spec_elastic_velocity(m1, m2, a.spec_vy(), b.spec_vy()) as i64,
            },
            ..a
        },
        Object {
            velocity: Velocity {
                x: spec_elastic_velocity(m2, m1, b.spec_vx(), a.spec_vx()) as i64,
                y: spec_elastic_velocity(m2, m1, b.spec_vy(), a.spec_vy()) as i64,
            },
            ..b
        },
    )
}

impl Object {
    pub open spec fn spec_position(self) -> Position {
        self.position
    }

    pub open spec fn spec_velocity(self) -> Velocity {
        self.velocity
    }

    pub open spec fn spec_width(self) -> int {
        self.width as int
    }

    pub open spec fn spec_height(self) -> int {
        self.height as int
    }

    pub open spec fn spec_mass(self) -> int {
        self.mass as int
    }

    pub open spec fn spec_x(self) -> int {
        self.spec_position().spec_x()
    }

    pub open spec fn spec_y(self) -> int {
        self.spec_position().spec_y()
    }

    pub open spec fn spec_vx(self) -> int {
        self.spec_velocity().spec_x()
    }

    pub open spec fn spec_vy(self) -> int {
        self.spec_velocity().spec_y()
    }

    /// Mass is strictly positive and the position's clamp box is real.
    pub open spec fn wf(self) -> bool {
        &&& 1 <= self.spec_mass()
        &&& self.spec_position().wf()
    }

    /// Both velocity components lie within `b` in magnitude.
    pub open spec fn velocity_within(self, b: int) -> bool {
        &&& -b <= self.spec_vx() <= b
        &&& -b <= self.spec_vy() <= b
    }

    /// A new body. Mass must be strictly positive; a non-positive mass is a
    /// construction-time error, so it is ruled out here.
    pub fn new(position: Position, width: u32, height: u32, mass: i64, velocity: Velocity) -> (o:
        Object)
        requires
            0 < mass,
            position.wf(),
        ensures
            o == (Object { position, width, height, mass, velocity }),
            o.wf(),
    {
        Object { position, width, height, mass, velocity }
    }

    pub fn position(&self) -> (p: Position)
        ensures
            p == self.spec_position(),
    {
        self.position
    }

    pub fn width(&self) -> (w: u32)
        ensures
            w == self.spec_width(),
    {
        self.width
    }

    pub fn height(&self) -> (h: u32)
        ensures
            h == self.spec_height(),
    {
        self.height
    }

    pub fn mass(&self) -> (m: i64)
        ensures
            m == self.spec_mass(),
    {
        self.mass
    }

    pub fn velocity(&self) -> (v: Velocity)
        ensures
            v == self.spec_velocity(),
    {
        self.velocity
    }

    /// The box's extent on the x axis: `(left edge, right edge)`.
    pub fn range_x(&self) -> (r: (i128, i128))
        ensures
            r.0 == self.spec_x(),
            r.1 == self.spec_x() + self.spec_width(),
    {
        let x = self.position.x() as i128;
        (x, x + self.width as i128)
    }

    /// The box's extent on the y axis: `(top edge, bottom edge)`.
    pub fn range_y(&self) -> (r: (i128, i128))
        ensures
            r.0 == self.spec_y(),
            r.1 == self.spec_y() + self.spec_height(),
    {
        let y = self.position.y() as i128;
        (y, y + self.height as i128)
    }

    /// Whether this box and the other touch or overlap.
    pub fn is_collide_with(&self, other: &Object) -> (r: bool)
        ensures
            r == spec_overlaps(*self, *other),
    {
        let (ax0, ax1) = self.range_x();
        let (ay0, ay1) = self.range_y();
        let (bx0, bx1) = other.range_x();
        let (by0, by1) = other.range_y();
        ax0 <= bx1 && bx0 <= ax1 && ay0 <= by1 && by0 <= ay1
    }

    /// Resolve an elastic collision between this body and the other: both
    /// velocities are replaced per axis by the elastic-collision law.
    /// Positions, sizes and masses are untouched.
    pub fn collide(&mut self, other: &mut Object)
        requires
            old(self).wf(),
            old(other).wf(),
            old(self).velocity_within(V_LIMIT as int),
            old(other).velocity_within(V_LIMIT as int),
        ensures
            *final(self) == spec_collided(*old(self), *old(other)).0,
            *final(other) == spec_collided(*old(self), *old(other)).1,
            final(self).spec_vx() == spec_elastic_velocity(
                old(self).spec_mass(),
                old(other).spec_mass(),
                old(self).spec_vx(),
                old(other).spec_vx(),
            ),
            final(self).spec_vy() == spec_elastic_velocity(
                old(self).spec_mass(),
                old(other).spec_mass(),
                old(self).spec_vy(),
                old(other).spec_vy(),
            ),
            final(other).spec_vx() == spec_elastic_velocity(
                old(other).spec_mass(),
                old(self).spec_mass(),
                old(other).spec_vx(),
                old(self).spec_vx(),
            ),
            final(other).spec_vy() == spec_elastic_velocity(
                old(other).spec_mass(),
                old(self).spec_mass(),
                old(other).spec_vy(),
                old(self).spec_vy(),
            ),
            final(self).spec_position() == old(self).spec_position(),
            final(self).spec_width() == old(self).spec_width(),
            final(self).spec_height() == old(self).spec_height(),
            final(self).spec_mass() == old(self).spec_mass(),
            final(other).spec_position() == old(other).spec_position(),
            final(other).spec_width() == old(other).spec_width(),
            final(other).spec_height() == old(other).spec_height(),
            final(other).spec_mass() == old(other).spec_mass(),
            final(self).wf(),
            final(other).wf(),
    {
        let m1 = self.mass as i128;
        let m2 = other.mass as i128;
        let s = m1 + m2;
        let v1x = self.velocity.x() as i128;
        let v1y = self.velocity.y() as i128;
        let v2x = other.velocity.x() as i128;
        let v2y = other.velocity.y() as i128;
        proof {
            lemma_numerator_fits(m1 as int, m2 as int, v1x as int, v2x as int);
            lemma_numerator_fits(m1 as int, m2 as int, v1y as int, v2y as int);
            lemma_numerator_fits(m2 as int, m1 as int, v2x as int, v1x as int);
            lemma_numerator_fits(m2 as int, m1 as int, v2y as int, v1y as int);
        }
        let n1x = (m1 - m2) * v1x + 2 * m2 * v2x;
        let n1y = (m1 - m2) * v1y + 2 * m2 * v2y;
        let n2x = (m2 - m1) * v2x + 2 * m1 * v1x;
        let n2y = (m2 - m1) * v2y + 2 * m1 * v1y;
        let q1x = div_trunc_i128(n1x, s);
        let q1y = div_trunc_i128(n1y, s);
        let q2x = div_trunc_i128(n2x, s);
        let q2y = div_trunc_i128(n2y, s);
        proof {
            lemma_elastic_velocity_bound(m1 as int, m2 as int, v1x as int, v2x as int, V_LIMIT as int);
            lemma_elastic_velocity_bound(m1 as int, m2 as int, v1y as int, v2y as int, V_LIMIT as int);
            lemma_elastic_velocity_bound(m2 as int, m1 as int, v2x as int, v1x as int, V_LIMIT as int);
            lemma_elastic_velocity_bound(m2 as int, m1 as int, v2y as int, v1y as int, V_LIMIT as int);
        }
        self.velocity = Velocity::new(q1x as i64, q1y as i64);
        other.velocity = Velocity::new(q2x as i64, q2y as i64);
    }

    /// Advance one tick: move the position by the velocity, clamped to the
    /// position's box. Velocity, size and mass are untouched.
    pub fn next_frame(&mut self)
        requires
            old(self).wf(),
        ensures
            *final(self) == spec_next_frame(*old(self)),
            final(self).spec_x() == spec_clamp(
                old(self).spec_x() + old(self).spec_vx(),
                old(self).spec_position().spec_max_x(),
            ),
            final(self).spec_y() == spec_clamp(
                old(self).spec_y() + old(self).spec_vy(),
                old(self).spec_position().spec_max_y(),
            ),
            0 <= final(self).spec_x() <= final(self).spec_position().spec_max_x(),
            0 <= final(self).spec_y() <= final(self).spec_position().spec_max_y(),
            final(self).spec_position().spec_max_x() == old(self).spec_position().spec_max_x(),
            final(self).spec_position().spec_max_y() == old(self).spec_position().spec_max_y(),
            final(self).spec_velocity() == old(self).spec_velocity(),
            final(self).spec_width() == old(self).spec_width(),
            final(self).spec_height() == old(self).spec_height(),
            final(self).spec_mass() == old(self).spec_mass(),
            final(self).wf(),
    {
        let vx = self.velocity.x();
        let vy = self.velocity.y();
        self.position.move_distance(vx, vy);
    }

    /// Mutable access to the velocity; everything else stays as it was.
    pub fn velocity_mut(&mut self) -> (v: &mut Velocity)
        ensures
            *v == old(self).spec_velocity(),
            final(self).spec_velocity() == *final(v),
            final(self).spec_position() == old(self).spec_position(),
            final(self).spec_width() == old(self).spec_width(),
            final(self).spec_height() == old(self).spec_height(),
            final(self).spec_mass() == old(self).spec_mass(),
    {
        &mut self.velocity
    }
}

/// The collision formula's numerator stays well inside the 128-bit word when
/// masses fit an `i64` and velocities are within `V_LIMIT`.
proof fn lemma_numerator_fits(m1: int, m2: int, v1: int, v2: int)
    requires
        1 <= m1 <= i64::MAX,
        1 <= m2 <= i64::MAX,
        -V_LIMIT <= v1 <= V_LIMIT,
        -V_LIMIT <= v2 <= V_LIMIT,
    ensures
        i128::MIN <= (m1 - m2) * v1 <= i128::MAX,
        i128::MIN <= 2 * m2 * v2 <= i128::MAX,
        i128::MIN < (m1 - m2) * v1 + 2 * m2 * v2 <= i128::MAX,
        -((m1 + m2) * (3 * V_LIMIT)) <= (m1 - m2) * v1 + 2 * m2 * v2 <= (m1 + m2) * (3 * V_LIMIT),
{
    assert((i128::MIN <= (m1 - m2) * v1 <= i128::MAX) && (i128::MIN <= 2 * m2 * v2 <= i128::MAX)
        && (i128::MIN < (m1 - m2) * v1 + 2 * m2 * v2 <= i128::MAX) && (-((m1 + m2) * (3 * V_LIMIT))
        <= (m1 - m2) * v1 + 2 * m2 * v2 <= (m1 + m2) * (3 * V_LIMIT))) by (nonlinear_arith)
        requires
            1 <= m1 <= i64::MAX,
            1 <= m2 <= i64::MAX,
            -V_LIMIT <= v1 <= V_LIMIT,
            -V_LIMIT <= v2 <= V_LIMIT,
    ;
}

/// Truncating division on machine words, computed through unsigned division
/// on the magnitude.
pub(crate) fn div_trunc_i128(n: i128, d: i128) -> (q: i128)
    requires
        1 <= d,
        i128::MIN < n,
    ensures
        q == spec_div_trunc(n as int, d as int),
{
    if n >= 0 {
        let qa = (n as u128) / (d as u128);
        proof {
            lemma_div_basics(n as int);
            lemma_div_is_ordered(0, n as int, d as int);
            lemma_div_pos_is_pos(n as int, d as int);
            lemma_div_is_ordered_le_self(n as int, d as int);
        }
        qa as i128
    } else {
        let m = -n;
        let qa = (m as u128) / (d as u128);
        proof {
            lemma_div_pos_is_pos(m as int, d as int);
            lemma_div_is_ordered_le_self(m as int, d as int);
        }
        -(qa as i128)
    }
}

/// For nonnegative `n` and positive `d`, the quotient is at most `n`.
proof fn lemma_div_is_ordered_le_self(n: int, d: int)
    requires
        0 <= n,
        1 <= d,
    ensures
        n / d <= n,
{
    lemma_div_pos_is_pos(n, d);
    lemma_fundamental_div_mod(n, d);
    lemma_mod_bound(n, d);
    assert(n / d <= n) by (nonlinear_arith)
        requires
            0 <= n / d,
            1 <= d,
            n == d * (n / d) + n % d,
            0 <= n % d,
    ;
}

} // verus!
