use vstd::prelude::*;

use crate::object::{
    div_trunc_i128, lemma_collide_energy_bounded, lemma_elastic_velocity_bound, spec_overlaps,
    Object, V_LIMIT,
};
use crate::screen_object::{
    lemma_tagged_ext, spec_so_collided, spec_so_next_frame, spec_so_reverse_vx,
    spec_so_reverse_vy, Kind, ScreenObject,
};
use vstd::arithmetic::div_mod::{lemma_div_pos_is_pos, lemma_fundamental_div_mod, lemma_mod_bound};
use vstd::arithmetic::mul::{
    lemma_mul_inequality, lemma_mul_is_associative, lemma_mul_is_commutative,
    lemma_mul_is_distributive_add_other_way,
};

verus! {

/// The four walls of the arena, in the fixed priority order in which a body
/// touching several walls in one tick reacts to exactly one of them.
#[derive(Clone, Copy, Debug, PartialEq, Eq, Structural)]
pub enum Wall {
    Left,
    Right,
    Top,
    Bottom,
}

/// What the classification pass records for one body: at most one collision
/// cause per tick.
#[derive(Clone, Copy, Debug, PartialEq, Eq, Structural)]
pub enum Collision {
    NoCollision,
    HitWall(Wall),
    HitBody(usize),
}

/// One body's kinetic-energy share on the x axis, in squared units weighted
/// by mass.
pub open spec fn spec_term_x(t: ScreenObject) -> int {
    t.spec_object().spec_mass() * t.spec_object().spec_vx() * t.spec_object().spec_vx()
}

/// One body's kinetic-energy share on the y axis.
pub open spec fn spec_term_y(t: ScreenObject) -> int {
    t.spec_object().spec_mass() * t.spec_object().spec_vy() * t.spec_object().spec_vy()
}

/// Total kinetic energy on the x axis over a set of bodies.
pub open spec fn spec_energy_x(s: Seq<ScreenObject>) -> int
    decreases s.len(),
{
    if s.len() == 0 {
        0
    } else {
        spec_energy_x(s.drop_last()) + spec_term_x(s.last())
    }
}

/// Total kinetic energy on the y axis over a set of bodies.
pub open spec fn spec_energy_y(s: Seq<ScreenObject>) -> int
    decreases s.len(),
{
    if s.len() == 0 {
        0
    } else {
        spec_energy_y(s.drop_last()) + spec_term_y(s.last())
    }
}

/// Every body in the sequence is well-formed.
pub open spec fn spec_all_wf(s: Seq<ScreenObject>) -> bool {
    forall|k: int| 0 <= k < s.len() ==> (#[trigger] s[k]).spec_object().wf()
}

/// The body's position lies inside its own clamp box.
pub open spec fn spec_in_box(t: ScreenObject) -> bool {
    &&& 0 <= t.spec_object().spec_x() <= t.spec_object().spec_position().spec_max_x()
    &&& 0 <= t.spec_object().spec_y() <= t.spec_object().spec_position().spec_max_y()
}

/// Integrating a well-formed body lands it inside its clamp box: the move is
/// clamped on both axes.
proof fn lemma_next_frame_in_box(t: ScreenObject)
    requires
        t.spec_object().spec_position().wf(),
    ensures
        spec_in_box(spec_so_next_frame(t)),
{
}

proof fn lemma_term_nonneg(t: ScreenObject)
    requires
        t.spec_object().wf(),
    ensures
        0 <= spec_term_x(t),
        0 <= spec_term_y(t),
{
    let m = t.spec_object().spec_mass();
    let vx = t.spec_object().spec_vx();
    let vy = t.spec_object().spec_vy();
    assert(0 <= m * vx * vx && 0 <= m * vy * vy) by (nonlinear_arith)
        requires
            1 <= m,
    ;
}

proof fn lemma_energy_nonneg(s: Seq<ScreenObject>)
    requires
        spec_all_wf(s),
    ensures
        0 <= spec_energy_x(s),
        0 <= spec_energy_y(s),
    decreases s.len(),
{
    if s.len() > 0 {
        assert(spec_all_wf(s.drop_last()));
        lemma_energy_nonneg(s.drop_last());
        lemma_term_nonneg(s.last());
    }
}

/// Replacing one body changes each axis total by the difference of the terms.
proof fn lemma_energy_update(s: Seq<ScreenObject>, i: int, v: ScreenObject)
    requires
        0 <= i < s.len(),
    ensures
        spec_energy_x(s.update(i, v)) == spec_energy_x(s) - spec_term_x(s[i]) + spec_term_x(v),
        spec_energy_y(s.update(i, v)) == spec_energy_y(s) - spec_term_y(s[i]) + spec_term_y(v),
    decreases s.len(),
{
    let t = s.update(i, v);
    if i == s.len() - 1 {
        assert(t.drop_last() =~= s.drop_last());
        assert(t.last() == v);
    } else {
        assert(t.drop_last() =~= s.drop_last().update(i, v));
        lemma_energy_update(s.drop_last(), i, v);
        assert(t.last() == s.last());
        assert(s.drop_last()[i] == s[i]);
    }
}

/// A single body's share never exceeds the axis total.
proof fn lemma_energy_le(s: Seq<ScreenObject>, i: int)
    requires
        0 <= i < s.len(),
        spec_all_wf(s),
    ensures
        spec_term_x(s[i]) <= spec_energy_x(s),
        spec_term_y(s[i]) <= spec_energy_y(s),
    decreases s.len(),
{
    assert(spec_all_wf(s.drop_last()));
    if i == s.len() - 1 {
        lemma_energy_nonneg(s.drop_last());
    } else {
        lemma_energy_le(s.drop_last(), i);
        lemma_term_nonneg(s.last());
        assert(s.drop_last()[i] == s[i]);
    }
}

/// Appending a body adds its terms to the axis totals.
proof fn lemma_energy_push(s: Seq<ScreenObject>, v: ScreenObject)
    ensures
        spec_energy_x(s.push(v)) == spec_energy_x(s) + spec_term_x(v),
        spec_energy_y(s.push(v)) == spec_energy_y(s) + spec_term_y(v),
{
    assert(s.push(v).drop_last() =~= s);
    assert(s.push(v).last() == v);
}

/// A prefix never exceeds the whole, term by nonnegative term.
proof fn lemma_energy_prefix(s: Seq<ScreenObject>, i: int)
    requires
        0 <= i <= s.len(),
        spec_all_wf(s),
    ensures
        0 <= spec_energy_x(s.take(i)) <= spec_energy_x(s),
        0 <= spec_energy_y(s.take(i)) <= spec_energy_y(s),
    decreases s.len(),
{
    assert(spec_all_wf(s.take(i)));
    lemma_energy_nonneg(s.take(i));
    if i == s.len() {
        assert(s.take(i) =~= s);
    } else {
        assert(spec_all_wf(s.drop_last()));
        assert(s.take(i) =~= s.drop_last().take(i));
        lemma_energy_prefix(s.drop_last(), i);
        lemma_term_nonneg(s.last());
    }
}

/// Stepping a prefix by one adds that body's terms.
proof fn lemma_energy_take_step(s: Seq<ScreenObject>, i: int)
    requires
        0 <= i < s.len(),
    ensures
        spec_energy_x(s.take(i + 1)) == spec_energy_x(s.take(i)) + spec_term_x(s[i]),
        spec_energy_y(s.take(i + 1)) == spec_energy_y(s.take(i)) + spec_term_y(s[i]),
{
    assert(s.take(i + 1).drop_last() =~= s.take(i));
    assert(s.take(i + 1).last() == s[i]);
}

/// For positive `m` and nonnegative `q` and `cap`, comparing `q` against the
/// quotient `cap / m` decides exactly whether `m * q` fits under `cap`.
proof fn lemma_le_div_iff(q: int, m: int, cap: int)
    requires
        1 <= m,
        0 <= q,
        0 <= cap,
    ensures
        (q <= cap / m) <==> (m * q <= cap),
{
    lemma_fundamental_div_mod(cap, m);
    lemma_mod_bound(cap, m);
    lemma_div_pos_is_pos(cap, m);
    lemma_mul_is_commutative(m, q);
    lemma_mul_is_commutative(m, cap / m);
    if q <= cap / m {
        lemma_mul_inequality(q, cap / m, m);
    } else {
        lemma_mul_inequality(cap / m + 1, q, m);
        lemma_mul_is_distributive_add_other_way(m, cap / m, 1);
    }
}

/// Under the arena's energy cap, every velocity component stays within
/// `V_LIMIT`: a body's own share `m * v^2` is at most the capped total, and
/// with mass at least one that bounds `v^2` by `V_LIMIT^2`.
pub proof fn lemma_velocity_in_limit(s: Seq<ScreenObject>, i: int)
    requires
        0 <= i < s.len(),
        spec_all_wf(s),
        spec_energy_x(s) <= V_LIMIT * V_LIMIT,
        spec_energy_y(s) <= V_LIMIT * V_LIMIT,
    ensures
        s[i].spec_object().velocity_within(V_LIMIT as int),
{
    lemma_energy_le(s, i);
    let m = s[i].spec_object().spec_mass();
    let vx = s[i].spec_object().spec_vx();
    let vy = s[i].spec_object().spec_vy();
    assert(-V_LIMIT <= vx <= V_LIMIT) by (nonlinear_arith)
        requires
            1 <= m,
            m * vx * vx <= V_LIMIT * V_LIMIT,
    ;
    assert(-V_LIMIT <= vy <= V_LIMIT) by (nonlinear_arith)
        requires
            1 <= m,
            m * vy * vy <= V_LIMIT * V_LIMIT,
    ;
}

/// The wall a body touches this tick, if any, checked in the fixed priority
/// order left, right, top, bottom: the first match wins, so a body in a
/// corner reacts to one wall only.
pub open spec fn spec_wall_hit(o: Object, w: int, h: int) -> Option<Wall> {
    if o.spec_x() <= 0 {
        Some(Wall::Left)
    } else if o.spec_x() + o.spec_width() >= w {
        Some(Wall::Right)
    } else if o.spec_y() <= 0 {
        Some(Wall::Top)
    } else if o.spec_y() + o.spec_height() >= h {
        Some(Wall::Bottom)
    } else {
        None
    }
}

/// Among the bodies with index below `k`, the last one (in index order) whose
/// box overlaps `o`, if any: when a body overlaps several earlier bodies the
/// last match wins.
pub open spec fn spec_last_overlap(s: Seq<ScreenObject>, o: Object, k: int) -> Option<int>
    decreases k,
{
    if k <= 0 {
        None
    } else if spec_overlaps(o, s[k - 1].spec_object()) {
        Some(k - 1)
    } else {
        spec_last_overlap(s, o, k - 1)
    }
}

proof fn lemma_last_overlap_range(s: Seq<ScreenObject>, o: Object, k: int)
    ensures
        spec_last_overlap(s, o, k) is Some ==> 0 <= spec_last_overlap(s, o, k)->0 < k,
    decreases k,
{
    if k > 0 && !spec_overlaps(o, s[k - 1].spec_object()) {
        lemma_last_overlap_range(s, o, k - 1);
    }
}

/// The collision cause recorded for body `i` during the classification pass,
/// taken over a snapshot of the whole tick-start state: the wall test first,
/// and only if no wall is touched, the scan over the bodies classified
/// earlier in the enumeration (those with smaller index). The scan is
/// deliberately one-sided: body `i` is compared against earlier bodies only,
/// so within one tick A may record a hit on B while B records something else;
/// the resolution pass still touches both sides of every recorded pairing.
pub open spec fn spec_classify(s: Seq<ScreenObject>, w: int, h: int, i: int) -> Collision {
    match spec_wall_hit(s[i].spec_object(), w, h) {
        Some(wall) => Collision::HitWall(wall),
        None => match spec_last_overlap(s, s[i].spec_object(), i) {
            Some(j) => Collision::HitBody(j as usize),
            None => Collision::NoCollision,
        },
    }
}

/// The collision tags of all bodies, classified over the tick-start state.
pub open spec fn spec_tags(s: Seq<ScreenObject>, w: int, h: int) -> Seq<Collision> {
    Seq::new(s.len(), |i: int| spec_classify(s, w, h, i))
}

/// Resolve the tag of body `i` against the current state: integrate a free
/// body; reverse the matching velocity component before integrating on a
/// wall hit; on a body hit, battle the kinds, exchange velocities
/// elastically, then integrate both partners.
pub open spec fn spec_resolve_at(s: Seq<ScreenObject>, c: Collision, i: int) -> Seq<
    ScreenObject,
> {
    match c {
        Collision::NoCollision => s.update(i, spec_so_next_frame(s[i])),
        Collision::HitWall(w) => {
            let t = if w == Wall::Left || w == Wall::Right {
                spec_so_reverse_vx(s[i])
            } else {
                spec_so_reverse_vy(s[i])
            };
            s.update(i, spec_so_next_frame(t))
        },
        Collision::HitBody(j) => {
            let pair = spec_so_collided(s[i], s[j as int]);
            s.update(i, spec_so_next_frame(pair.0)).update(j as int, spec_so_next_frame(pair.1))
        },
    }
}

/// Resolve all tags from index `i` on, in index order, each against the
/// state the earlier resolutions left behind.
pub open spec fn spec_resolve_from(s: Seq<ScreenObject>, tags: Seq<Collision>, i: int) -> Seq<
    ScreenObject,
>
    decreases tags.len() - i,
{
    if 0 <= i < tags.len() {
        spec_resolve_from(spec_resolve_at(s, tags[i], i), tags, i + 1)
    } else {
        s
    }
}

/// One full simulation tick: classify every body over a snapshot of the
/// current state, then resolve every tag in index order.
pub open spec fn spec_tick(s: Seq<ScreenObject>, w: int, h: int) -> Seq<ScreenObject> {
    spec_resolve_from(s, spec_tags(s, w, h), 0)
}

/// How many bodies of the sequence carry the given kind.
pub open spec fn spec_count(s: Seq<ScreenObject>, k: Kind) -> int
    decreases s.len(),
{
    if s.len() == 0 {
        0
    } else {
        spec_count(s.drop_last(), k) + if s.last().spec_kind() == k {
            1int
        } else {
            0int
        }
    }
}

/// The arena: owner and per-tick simulator of all bodies within the bounded
/// rectangle `[0, width] x [0, height]`. Bodies are stored densely; a body's
/// index at insertion is its stable identifier for life (bodies are never
/// removed).
pub struct Screen {
    width: u32,
    height: u32,
    objects: Vec<ScreenObject>,
}

impl Screen {
    pub closed spec fn spec_objects(self) -> Seq<ScreenObject> {
        self.objects@
    }

    pub closed spec fn spec_width(self) -> int {
        self.width as int
    }

    pub closed spec fn spec_height(self) -> int {
        self.height as int
    }

    /// Every body is well-formed and each axis' total kinetic energy is under
    /// the cap. The cap keeps every velocity component within `V_LIMIT`
    /// forever — a tick never gains energy — so collision arithmetic can
    /// never overflow, however long the simulation runs.
    pub open spec fn wf(self) -> bool {
        &&& spec_all_wf(self.spec_objects())
        &&& spec_energy_x(self.spec_objects()) <= V_LIMIT * V_LIMIT
        &&& spec_energy_y(self.spec_objects()) <= V_LIMIT * V_LIMIT
    }

    /// An empty arena of the given pixel-space dimensions.
    pub fn new(width: u32, height: u32) -> (s: Screen)
        ensures
            s.spec_width() == width,
            s.spec_height() == height,
            s.spec_objects().len() == 0,
            s.wf(),
    {
        Screen { width, height, objects: Vec::new() }
    }

    pub fn width(&self) -> (w: u32)
        ensures
            w == self.spec_width(),
    {
        self.width
    }

    pub fn height(&self) -> (h: u32)
        ensures
            h == self.spec_height(),
    {
        self.height
    }

    /// How many bodies the arena holds.
    pub fn len(&self) -> (n: usize)
        ensures
            n == self.spec_objects().len(),
    {
        self.objects.len()
    }

    /// The body stored under the given identifier.
    pub fn object_at(&self, id: usize) -> (t: ScreenObject)
        requires
            id < self.spec_objects().len(),
        ensures
            t == self.spec_objects()[id as int],
    {
        self.objects[id]
    }

    /// Store a body and return its fresh identifier: the next dense index,
    /// stable for the body's lifetime. The energy headroom preconditions are
    /// machine limits — `can_add` tests them at run time — and keep the
    /// arena's cap, and with it overflow-freedom, intact.
    pub fn add_object(&mut self, object: ScreenObject) -> (id: usize)
        requires
            old(self).wf(),
            object.spec_object().wf(),
            spec_energy_x(old(self).spec_objects()) + spec_term_x(object) <= V_LIMIT * V_LIMIT,
            spec_energy_y(old(self).spec_objects()) + spec_term_y(object) <= V_LIMIT * V_LIMIT,
        ensures
            final(self).wf(),
            final(self).spec_objects() == old(self).spec_objects().push(object),
            id == old(self).spec_objects().len(),
            final(self).spec_width() == old(self).spec_width(),
            final(self).spec_height() == old(self).spec_height(),
    {
        proof {
            lemma_energy_push(self.objects@, object);
        }
        let id = self.objects.len();
        self.objects.push(object);
        id
    }

    /// The total kinetic energy per axis over all stored bodies, exactly.
    fn energy_total(&self) -> (r: (i128, i128))
        requires
            self.wf(),
        ensures
            r.0 == spec_energy_x(self.spec_objects()),
            r.1 == spec_energy_y(self.spec_objects()),
    {
        let n = self.objects.len();
        let mut ex: i128 = 0;
        let mut ey: i128 = 0;
        let mut i: usize = 0;
        while i < n
            invariant
                i <= n,
                n == self.objects@.len(),
                self.wf(),
                ex == spec_energy_x(self.objects@.take(i as int)),
                ey == spec_energy_y(self.objects@.take(i as int)),
            decreases n - i,
        {
            let t = self.objects[i];
            let m = t.object().mass() as i128;
            let vx = t.object().velocity().x() as i128;
            let vy = t.object().velocity().y() as i128;
            proof {
                lemma_energy_take_step(self.objects@, i as int);
                lemma_energy_prefix(self.objects@, i as int);
                lemma_energy_prefix(self.objects@, i as int + 1);
                lemma_energy_le(self.objects@, i as int);
                lemma_term_nonneg(self.objects@[i as int]);
                lemma_mul_is_associative(m as int, vx as int, vx as int);
                lemma_mul_is_associative(m as int, vy as int, vy as int);
                assert(0 <= vx * vx <= 0x4000_0000_0000_0000_0000_0000_0000_0000 && 0 <= vy * vy
                    <= 0x4000_0000_0000_0000_0000_0000_0000_0000) by (nonlinear_arith)
                    requires
                        -0x8000_0000_0000_0000 <= vx <= 0x7fff_ffff_ffff_ffff,
                        -0x8000_0000_0000_0000 <= vy <= 0x7fff_ffff_ffff_ffff,
                ;
            }
            let tx = m * (vx * vx);
            let ty = m * (vy * vy);
            ex = ex + tx;
            ey = ey + ty;
            i += 1;
        }
        proof {
            assert(self.objects@.take(n as int) =~= self.objects@);
        }
        (ex, ey)
    }

    /// Whether the arena has energy headroom for the given body on both
    /// axes: exactly the precondition that `add_object` asks for.
    pub fn can_add(&self, object: &ScreenObject) -> (r: bool)
        requires
            self.wf(),
            object.spec_object().wf(),
        ensures
            r == (spec_energy_x(self.spec_objects()) + spec_term_x(*object) <= V_LIMIT * V_LIMIT
                && spec_energy_y(self.spec_objects()) + spec_term_y(*object) <= V_LIMIT
                * V_LIMIT),
    {
        let o = object.object();
        let m = o.mass() as i128;
        let vx = o.velocity().x() as i128;
        let vy = o.velocity().y() as i128;
        proof {
            assert(0 <= vx * vx <= 0x4000_0000_0000_0000_0000_0000_0000_0000 && 0 <= vy * vy
                <= 0x4000_0000_0000_0000_0000_0000_0000_0000) by (nonlinear_arith)
                requires
                    -0x8000_0000_0000_0000 <= vx <= 0x7fff_ffff_ffff_ffff,
                    -0x8000_0000_0000_0000 <= vy <= 0x7fff_ffff_ffff_ffff,
            ;
            lemma_mul_is_associative(m as int, vx as int, vx as int);
            lemma_mul_is_associative(m as int, vy as int, vy as int);
        }
        let vx2 = vx * vx;
        let vy2 = vy * vy;
        let cap: i128 = (V_LIMIT as i128) * (V_LIMIT as i128);
        let budget = div_trunc_i128(cap, m);
        proof {
            lemma_le_div_iff(vx2 as int, m as int, cap as int);
            lemma_le_div_iff(vy2 as int, m as int, cap as int);
            lemma_energy_nonneg(self.objects@);
        }
        if vx2 > budget || vy2 > budget {
            return false;
        }
        let tx = m * vx2;
        let ty = m * vy2;
        let (ex, ey) = self.energy_total();
        ex + tx <= cap && ey + ty <= cap
    }

    /// The collision cause that the classification pass records for body
    /// `id` over the current state.
    pub fn classify(&self, id: usize) -> (c: Collision)
        requires
            id < self.spec_objects().len(),
        ensures
            c == spec_classify(
                self.spec_objects(),
                self.spec_width(),
                self.spec_height(),
                id as int,
            ),
    {
        let o = self.objects[id].object();
        let (x0, x1) = o.range_x();
        let (y0, y1) = o.range_y();
        if x0 <= 0 {
            Collision::HitWall(Wall::Left)
        } else if x1 >= self.width as i128 {
            Collision::HitWall(Wall::Right)
        } else if y0 <= 0 {
            Collision::HitWall(Wall::Top)
        } else if y1 >= self.height as i128 {
            Collision::HitWall(Wall::Bottom)
        } else {
            let mut c = Collision::NoCollision;
            let mut j: usize = 0;
            while j < id
                invariant
                    j <= id < self.objects@.len(),
                    o == self.objects@[id as int].spec_object(),
                    c == (match spec_last_overlap(self.objects@, o, j as int) {
                        Some(jj) => Collision::HitBody(jj as usize),
                        None => Collision::NoCollision,
                    }),
                decreases id - j,
            {
                if o.is_collide_with(&self.objects[j].object()) {
                    c = Collision::HitBody(j);
                }
                j += 1;
            }
            c
        }
    }

    /// How many bodies currently carry each kind, as
    /// `(rock, paper, scissors)`.
    pub fn object_count(&self) -> (r: (usize, usize, usize))
        ensures
            r.0 == spec_count(self.spec_objects(), Kind::Rock),
            r.1 == spec_count(self.spec_objects(), Kind::Paper),
            r.2 == spec_count(self.spec_objects(), Kind::Scissors),
    {
        let mut rock: usize = 0;
        let mut paper: usize = 0;
        let mut scissors: usize = 0;
        let n = self.objects.len();
        let mut i: usize = 0;
        while i < n
            invariant
                i <= n,
                n == self.objects@.len(),
                rock == spec_count(self.objects@.take(i as int), Kind::Rock),
                paper == spec_count(self.objects@.take(i as int), Kind::Paper),
                scissors == spec_count(self.objects@.take(i as int), Kind::Scissors),
                rock + paper + scissors == i,
            decreases n - i,
        {
            proof {
                assert(self.objects@.take(i as int + 1).drop_last() =~= self.objects@.take(
                    i as int,
                ));
                assert(self.objects@.take(i as int + 1).last() == self.objects@[i as int]);
            }
            match self.objects[i].kind() {
                Kind::Rock => rock += 1,
                Kind::Paper => paper += 1,
                Kind::Scissors => scissors += 1,
            }
            i += 1;
        }
        proof {
            assert(self.objects@.take(n as int) =~= self.objects@);
        }
        (rock, paper, scissors)
    }

    /// Advance the simulation one tick: first the read-only classification
    /// pass tags every body over a snapshot of the current state, then the
    /// resolution pass applies every tag in index order — integrating free
    /// bodies, bouncing wall-hitters, and for each recorded pairing fighting
    /// the battle, exchanging velocities elastically and integrating both
    /// partners. The arena never gains kinetic energy, so it stays
    /// well-formed for the next tick; and since every body is integrated
    /// through the clamping move, every body ends the tick inside its box.
    pub fn next_frame(&mut self)
        requires
            old(self).wf(),
        ensures
            final(self).wf(),
            final(self).spec_width() == old(self).spec_width(),
            final(self).spec_height() == old(self).spec_height(),
            final(self).spec_objects() == spec_tick(
                old(self).spec_objects(),
                old(self).spec_width(),
                old(self).spec_height(),
            ),
            spec_energy_x(final(self).spec_objects()) <= spec_energy_x(old(self).spec_objects()),
            spec_energy_y(final(self).spec_objects()) <= spec_energy_y(old(self).spec_objects()),
            forall|k: int|
                0 <= k < final(self).spec_objects().len() ==> spec_in_box(
                    #[trigger] final(self).spec_objects()[k],
                ),
    {
        let ghost s0 = self.objects@;
        let ghost w = self.spec_width();
        let ghost h = self.spec_height();
        let n = self.objects.len();

        let mut tags: Vec<Collision> = Vec::new();
        let mut i: usize = 0;
        while i < n
            invariant
                i <= n,
                n == self.objects@.len(),
                self.objects@ == s0,
                self.spec_width() == w,
                self.spec_height() == h,
                tags@.len() == i,
                forall|k: int| 0 <= k < i ==> tags@[k] == spec_classify(s0, w, h, k),
            decreases n - i,
        {
            let c = self.classify(i);
            tags.push(c);
            i += 1;
        }
        proof {
            assert(tags@ =~= spec_tags(s0, w, h));
        }

        let ghost tags0 = tags@;
        let mut i: usize = 0;
        while i < n
            invariant
                i <= n,
                n == self.objects@.len(),
                s0.len() == n,
                tags@ == tags0,
                tags0.len() == n,
                self.spec_width() == w,
                self.spec_height() == h,
                forall|k: int| 0 <= k < n ==> tags0[k] == spec_classify(s0, w, h, k),
                spec_all_wf(self.objects@),
                spec_energy_x(s0) <= V_LIMIT * V_LIMIT,
                spec_energy_y(s0) <= V_LIMIT * V_LIMIT,
                spec_energy_x(self.objects@) <= spec_energy_x(s0),
                spec_energy_y(self.objects@) <= spec_energy_y(s0),
                forall|k: int| 0 <= k < i ==> spec_in_box(#[trigger] self.objects@[k]),
                spec_resolve_from(self.objects@, tags0, i as int) == spec_resolve_from(
                    s0,
                    tags0,
                    0,
                ),
            decreases n - i,
        {
            let ghost cur = self.objects@;
            let c = tags[i];
            match c {
                Collision::NoCollision => {
                    let mut t = self.objects[i];
                    let o = t.object_mut();
                    o.next_frame();
                    self.objects[i] = t;
                    proof {
                        lemma_tagged_ext(t);
                        assert(t == spec_so_next_frame(cur[i as int]));
                        assert(self.objects@ == spec_resolve_at(cur, tags0[i as int], i as int));
                        lemma_energy_update(cur, i as int, t);
                        assert(spec_term_x(t) == spec_term_x(cur[i as int]));
                        assert(spec_term_y(t) == spec_term_y(cur[i as int]));
                        assert(spec_all_wf(self.objects@));
                        lemma_next_frame_in_box(cur[i as int]);
                    }
                },
                Collision::HitWall(wall) => {
                    proof {
                        lemma_velocity_in_limit(cur, i as int);
                    }
                    let mut t = self.objects[i];
                    let o = t.object_mut();
                    let horizontal = match wall {
                        Wall::Left | Wall::Right => true,
                        Wall::Top | Wall::Bottom => false,
                    };
                    let v = o.velocity_mut();
                    if horizontal {
                        v.reverse_x();
                    } else {
                        v.reverse_y();
                    }
                    o.next_frame();
                    self.objects[i] = t;
                    proof {
                        lemma_tagged_ext(t);
                        let mid = if horizontal {
                            spec_so_reverse_vx(cur[i as int])
                        } else {
                            spec_so_reverse_vy(cur[i as int])
                        };
                        assert(t == spec_so_next_frame(mid));
                        assert(self.objects@ == spec_resolve_at(cur, tags0[i as int], i as int));
                        lemma_energy_update(cur, i as int, t);
                        let m = cur[i as int].spec_object().spec_mass();
                        let vx = cur[i as int].spec_object().spec_vx();
                        let vy = cur[i as int].spec_object().spec_vy();
                        assert(m * (-vx) * (-vx) == m * vx * vx && m * (-vy) * (-vy) == m * vy
                            * vy) by (nonlinear_arith);
                        assert(spec_term_x(t) == spec_term_x(cur[i as int]));
                        assert(spec_term_y(t) == spec_term_y(cur[i as int]));
                        assert(spec_all_wf(self.objects@));
                        lemma_next_frame_in_box(mid);
                    }
                },
                Collision::HitBody(j) => {
                    proof {
                        lemma_last_overlap_range(s0, s0[i as int].spec_object(), i as int);
                        assert(j < i);
                        lemma_velocity_in_limit(cur, i as int);
                        lemma_velocity_in_limit(cur, j as int);
                    }
                    let mut a = self.objects[i];
                    let mut b = self.objects[j];
                    a.collide(&mut b);
                    let oa = a.object_mut();
                    oa.next_frame();
                    let ob = b.object_mut();
                    ob.next_frame();
                    self.objects[i] = a;
                    self.objects[j] = b;
                    proof {
                        lemma_tagged_ext(a);
                        lemma_tagged_ext(b);
                        let pair = spec_so_collided(cur[i as int], cur[j as int]);
                        assert(a == spec_so_next_frame(pair.0));
                        assert(b == spec_so_next_frame(pair.1));
                        assert(self.objects@ == spec_resolve_at(cur, tags0[i as int], i as int));
                        let s1 = cur.update(i as int, a);
                        lemma_energy_update(cur, i as int, a);
                        assert(s1[j as int] == cur[j as int]);
                        lemma_energy_update(s1, j as int, b);
                        lemma_collide_pair_energy(cur[i as int], cur[j as int], a, b);
                        assert(spec_all_wf(self.objects@));
                        lemma_next_frame_in_box(pair.0);
                        lemma_next_frame_in_box(pair.1);
                    }
                },
            }
            i += 1;
        }
        proof {
            assert(spec_resolve_from(self.objects@, tags0, n as int) == self.objects@);
        }
    }
}

/// After a collision pairing is resolved and both partners integrated, the
/// pair's kinetic-energy terms have not grown on either axis.
proof fn lemma_collide_pair_energy(ta: ScreenObject, tb: ScreenObject, a: ScreenObject, b: ScreenObject)
    requires
        ta.spec_object().wf(),
        tb.spec_object().wf(),
        ta.spec_object().velocity_within(V_LIMIT as int),
        tb.spec_object().velocity_within(V_LIMIT as int),
        a == spec_so_next_frame(spec_so_collided(ta, tb).0),
        b == spec_so_next_frame(spec_so_collided(ta, tb).1),
    ensures
        spec_term_x(a) + spec_term_x(b) <= spec_term_x(ta) + spec_term_x(tb),
        spec_term_y(a) + spec_term_y(b) <= spec_term_y(ta) + spec_term_y(tb),
        a.spec_object().wf(),
        b.spec_object().wf(),
{
    let m1 = ta.spec_object().spec_mass();
    let m2 = tb.spec_object().spec_mass();
    let v1x = ta.spec_object().spec_vx();
    let v2x = tb.spec_object().spec_vx();
    let v1y = ta.spec_object().spec_vy();
    let v2y = tb.spec_object().spec_vy();
    lemma_elastic_velocity_bound(m1, m2, v1x, v2x, V_LIMIT as int);
    lemma_elastic_velocity_bound(m1, m2, v1y, v2y, V_LIMIT as int);
    lemma_elastic_velocity_bound(m2, m1, v2x, v1x, V_LIMIT as int);
    lemma_elastic_velocity_bound(m2, m1, v2y, v1y, V_LIMIT as int);
    lemma_collide_energy_bounded(m1, m2, v1x, v2x);
    lemma_collide_energy_bounded(m1, m2, v1y, v2y);
}

} // verus!
