use vstd::prelude::*;

use crate::object::{
    spec_collided, spec_elastic_velocity, spec_next_frame, spec_reverse_vx, spec_reverse_vy,
    Object, V_LIMIT,
};

verus! {

/// The discrete kind of a body, with the fixed cyclic dominance
/// Rock beats Scissors, Scissors beats Paper, Paper beats Rock.
#[derive(Clone, Copy, Debug, PartialEq, Eq, Structural)]
pub enum Kind {
    Rock,
    Paper,
    Scissors,
}

/// Whether kind `a` beats kind `b` under the cyclic dominance.
pub open spec fn spec_beats(a: Kind, b: Kind) -> bool {
    ||| (a == Kind::Rock && b == Kind::Scissors)
    ||| (a == Kind::Scissors && b == Kind::Paper)
    ||| (a == Kind::Paper && b == Kind::Rock)
}

/// The battle outcome seen from the first kind: `Some(true)` when it wins,
/// `Some(false)` when it loses, `None` between equal kinds.
pub open spec fn spec_outcome(a: Kind, b: Kind) -> Option<bool> {
    if a == b {
        None
    } else if spec_beats(a, b) {
        Some(true)
    } else {
        Some(false)
    }
}

/// The kind pair after a battle: between differing kinds the loser's kind is
/// overwritten with the winner's, so both leave with the winner's kind; equal
/// kinds stand untouched.
pub open spec fn spec_battle_kinds(a: Kind, b: Kind) -> (Kind, Kind) {
    if spec_beats(a, b) {
        (a, a)
    } else if spec_beats(b, a) {
        (b, b)
    } else {
        (a, b)
    }
}

/// The battle outcome is a strict total cyclic order over the three kinds:
/// equal kinds have no outcome, and between different kinds exactly one side
/// wins — the two directed outcomes are logical negations of each other.
pub proof fn lemma_outcome_strict_total(a: Kind, b: Kind)
    ensures
        a == b ==> spec_outcome(a, b) is None,
        a != b ==> spec_outcome(a, b) is Some,
        a != b ==> spec_outcome(b, a) is Some,
        a != b ==> spec_outcome(a, b)->0 == !spec_outcome(b, a)->0,
{
}

/// Between differing kinds a battle always has a winner, and the loser
/// leaves with the winner's prior kind: afterwards both sides carry the
/// winner's kind. Between equal kinds nothing changes.
pub proof fn lemma_battle_loser_takes_winners_kind(a: Kind, b: Kind)
    ensures
        a != b ==> spec_beats(a, b) || spec_beats(b, a),
        spec_beats(a, b) ==> spec_battle_kinds(a, b) == (a, a),
        spec_beats(b, a) ==> spec_battle_kinds(a, b) == (b, b),
        a != b ==> spec_battle_kinds(a, b).0 == spec_battle_kinds(a, b).1,
        a == b ==> spec_battle_kinds(a, b) == (a, b),
{
}

impl Kind {
    /// Whether this kind beats the other.
    pub fn beats(self, other: Kind) -> (r: bool)
        ensures
            r == spec_beats(self, other),
    {
        match (self, other) {
            (Kind::Rock, Kind::Scissors) => true,
            (Kind::Scissors, Kind::Paper) => true,
            (Kind::Paper, Kind::Rock) => true,
            _ => false,
        }
    }

    /// The battle outcome seen from this kind.
    pub fn outcome(self, other: Kind) -> (r: Option<bool>)
        ensures
            r == spec_outcome(self, other),
    {
        if self == other {
            None
        } else {
            Some(self.beats(other))
        }
    }
}

/// A body on the screen, tagged with its kind. The payload survives every
/// kind change unchanged: a battle only replaces the tag.
#[derive(Clone, Copy, Debug, PartialEq, Eq, Structural)]
pub enum ScreenObject {
    Paper(Object),
    Rock(Object),
    Scissors(Object),
}

/// The screen object carrying the given body under the given kind.
pub open spec fn spec_tagged(k: Kind, o: Object) -> ScreenObject {
    match k {
        Kind::Rock => ScreenObject::Rock(o),
        Kind::Paper => ScreenObject::Paper(o),
        Kind::Scissors => ScreenObject::Scissors(o),
    }
}

/// The screen object one tick later: its body moved by its velocity.
pub open spec fn spec_so_next_frame(t: ScreenObject) -> ScreenObject {
    spec_tagged(t.spec_kind(), spec_next_frame(t.spec_object()))
}

/// The screen object with its x velocity negated.
pub open spec fn spec_so_reverse_vx(t: ScreenObject) -> ScreenObject {
    spec_tagged(t.spec_kind(), spec_reverse_vx(t.spec_object()))
}

/// The screen object with its y velocity negated.
pub open spec fn spec_so_reverse_vy(t: ScreenObject) -> ScreenObject {
    spec_tagged(t.spec_kind(), spec_reverse_vy(t.spec_object()))
}

/// Both screen objects after a full collision: kinds fought out by the
/// battle rule, velocities exchanged by the elastic law.
pub open spec fn spec_so_collided(a: ScreenObject, b: ScreenObject) -> (
    ScreenObject,
    ScreenObject,
) {
    let ks = spec_battle_kinds(a.spec_kind(), b.spec_kind());
    let os = spec_collided(a.spec_object(), b.spec_object());
    (spec_tagged(ks.0, os.0), spec_tagged(ks.1, os.1))
}

/// Every screen object is its own kind tag over its own body.
pub proof fn lemma_tagged_ext(t: ScreenObject)
    ensures
        t == spec_tagged(t.spec_kind(), t.spec_object()),
{
}

impl ScreenObject {
    pub open spec fn spec_kind(self) -> Kind {
        match self {
            ScreenObject::Paper(_) => Kind::Paper,
            ScreenObject::Rock(_) => Kind::Rock,
            ScreenObject::Scissors(_) => Kind::Scissors,
        }
    }

    pub open spec fn spec_object(self) -> Object {
        match self {
            ScreenObject::Paper(o) => o,
            ScreenObject::Rock(o) => o,
            ScreenObject::Scissors(o) => o,
        }
    }

    /// Build a screen object from a kind and a body.
    pub fn tagged(k: Kind, o: Object) -> (r: ScreenObject)
        ensures
            r == spec_tagged(k, o),
            r.spec_kind() == k,
            r.spec_object() == o,
    {
        match k {
            Kind::Rock => ScreenObject::Rock(o),
            Kind::Paper => ScreenObject::Paper(o),
            Kind::Scissors => ScreenObject::Scissors(o),
        }
    }

    /// This object's kind tag.
    pub fn kind(&self) -> (k: Kind)
        ensures
            k == self.spec_kind(),
    {
        match self {
            ScreenObject::Paper(_) => Kind::Paper,
            ScreenObject::Rock(_) => Kind::Rock,
            ScreenObject::Scissors(_) => Kind::Scissors,
        }
    }

    /// The physical body, by value.
    pub fn object(&self) -> (o: Object)
        ensures
            o == self.spec_object(),
    {
        match self {
            ScreenObject::Paper(o) => *o,
            ScreenObject::Rock(o) => *o,
            ScreenObject::Scissors(o) => *o,
        }
    }

    /// Mutable access to the physical body; the kind tag stays as it was.
    pub fn object_mut(&mut self) -> (o: &mut Object)
        ensures
            *o == old(self).spec_object(),
            final(self).spec_object() == *final(o),
            final(self).spec_kind() == old(self).spec_kind(),
    {
        match self {
            ScreenObject::Paper(o) => o,
            ScreenObject::Rock(o) => o,
            ScreenObject::Scissors(o) => o,
        }
    }

    /// Fight out the kinds: between differing kinds the loser's tag is
    /// overwritten with the winner's kind. The bodies themselves — positions,
    /// velocities, masses, sizes — are untouched.
    pub fn battle(&mut self, other: &mut ScreenObject)
        ensures
            *final(self) == spec_tagged(
                spec_battle_kinds(old(self).spec_kind(), old(other).spec_kind()).0,
                old(self).spec_object(),
            ),
            *final(other) == spec_tagged(
                spec_battle_kinds(old(self).spec_kind(), old(other).spec_kind()).1,
                old(other).spec_object(),
            ),
            final(self).spec_kind() == spec_battle_kinds(
                old(self).spec_kind(),
                old(other).spec_kind(),
            ).0,
            final(other).spec_kind() == spec_battle_kinds(
                old(self).spec_kind(),
                old(other).spec_kind(),
            ).1,
            final(self).spec_object() == old(self).spec_object(),
            final(other).spec_object() == old(other).spec_object(),
    {
        let k1 = self.kind();
        let k2 = other.kind();
        if k1.beats(k2) {
            *other = ScreenObject::tagged(k1, other.object());
        } else if k2.beats(k1) {
            *self = ScreenObject::tagged(k2, self.object());
        }
    }

    /// A full collision between two screen objects: the battle rule on the
    /// kind tags and the elastic velocity exchange on the bodies. The two
    /// effects touch disjoint state — battle only the tags, physics only the
    /// velocities — and positions, sizes and masses survive both.
    pub fn collide(&mut self, other: &mut ScreenObject)
        requires
            old(self).spec_object().wf(),
            old(other).spec_object().wf(),
            old(self).spec_object().velocity_within(V_LIMIT as int),
            old(other).spec_object().velocity_within(V_LIMIT as int),
        ensures
            *final(self) == spec_so_collided(*old(self), *old(other)).0,
            *final(other) == spec_so_collided(*old(self), *old(other)).1,
            final(self).spec_kind() == spec_battle_kinds(
                old(self).spec_kind(),
                old(other).spec_kind(),
            ).0,
            final(other).spec_kind() == spec_battle_kinds(
                old(self).spec_kind(),
                old(other).spec_kind(),
            ).1,
            final(self).spec_object().spec_vx() == spec_elastic_velocity(
                old(self).spec_object().spec_mass(),
                old(other).spec_object().spec_mass(),
                old(self).spec_object().spec_vx(),
                old(other).spec_object().spec_vx(),
            ),
            final(self).spec_object().spec_vy() == spec_elastic_velocity(
                old(self).spec_object().spec_mass(),
                old(other).spec_object().spec_mass(),
                old(self).spec_object().spec_vy(),
                old(other).spec_object().spec_vy(),
            ),
            final(other).spec_object().spec_vx() == spec_elastic_velocity(
                old(other).spec_object().spec_mass(),
                old(self).spec_object().spec_mass(),
                old(other).spec_object().spec_vx(),
                old(self).spec_object().spec_vx(),
            ),
            final(other).spec_object().spec_vy() == spec_elastic_velocity(
                old(other).spec_object().spec_mass(),
                old(self).spec_object().spec_mass(),
                old(other).spec_object().spec_vy(),
                old(self).spec_object().spec_vy(),
            ),
            final(self).spec_object().spec_position() == old(self).spec_object().spec_position(),
            final(self).spec_object().spec_width() == old(self).spec_object().spec_width(),
            final(self).spec_object().spec_height() == old(self).spec_object().spec_height(),
            final(self).spec_object().spec_mass() == old(self).spec_object().spec_mass(),
            final(other).spec_object().spec_position() == old(other).spec_object().spec_position(),
            final(other).spec_object().spec_width() == old(other).spec_object().spec_width(),
            final(other).spec_object().spec_height() == old(other).spec_object().spec_height(),
            final(other).spec_object().spec_mass() == old(other).spec_object().spec_mass(),
            final(self).spec_object().wf(),
            final(other).spec_object().wf(),
    {
        self.battle(other);
        let o1 = self.object_mut();
        let o2 = other.object_mut();
        o1.collide(o2);
    }
}

} // verus!
