use rps_arena::object::Object;
use rps_arena::position::Position;
use rps_arena::screen_object::{Kind, ScreenObject};
use rps_arena::velocity::Velocity;

fn body(x: i64, vx: i64, mass: i64) -> Object {
    Object::new(Position::new(x, 0, 10_000, 10_000), 10, 10, mass, Velocity::new(vx, 0))
}

#[test]
fn outcome_is_a_strict_cyclic_order() {
    let (rock, paper, scissors) = (Kind::Rock, Kind::Paper, Kind::Scissors);
    assert_eq!(rock.outcome(scissors), Some(true));
    assert_eq!(scissors.outcome(rock), Some(false));
    assert_eq!(scissors.outcome(paper), Some(true));
    assert_eq!(paper.outcome(scissors), Some(false));
    assert_eq!(paper.outcome(rock), Some(true));
    assert_eq!(rock.outcome(paper), Some(false));
    assert_eq!(rock.outcome(rock), None);
    assert_eq!(paper.outcome(paper), None);
    assert_eq!(scissors.outcome(scissors), None);
}

#[test]
fn loser_takes_winners_kind_and_bodies_survive() {
    let mut winner = ScreenObject::tagged(Kind::Paper, body(0, 1, 2));
    let mut loser = ScreenObject::tagged(Kind::Rock, body(50, -1, 3));
    winner.battle(&mut loser);
    assert_eq!(winner.kind(), Kind::Paper);
    assert_eq!(loser.kind(), Kind::Paper);
    // Battle touches only the kind tag: both bodies are bit-for-bit intact.
    assert_eq!(winner.object(), body(0, 1, 2));
    assert_eq!(loser.object(), body(50, -1, 3));
}

#[test]
fn battle_seen_from_the_losing_side() {
    let mut loser = ScreenObject::tagged(Kind::Scissors, body(0, 1, 1));
    let mut winner = ScreenObject::tagged(Kind::Rock, body(50, -1, 1));
    loser.battle(&mut winner);
    assert_eq!(loser.kind(), Kind::Rock);
    assert_eq!(winner.kind(), Kind::Rock);
}

#[test]
fn battle_between_equal_kinds_changes_nothing() {
    let mut a = ScreenObject::tagged(Kind::Scissors, body(0, 1, 1));
    let mut b = ScreenObject::tagged(Kind::Scissors, body(50, -1, 1));
    a.battle(&mut b);
    assert_eq!(a.kind(), Kind::Scissors);
    assert_eq!(b.kind(), Kind::Scissors);
    assert_eq!(a.object(), body(0, 1, 1));
    assert_eq!(b.object(), body(50, -1, 1));
}

#[test]
fn rock_converts_scissors_and_masses_drive_velocities() {
    // A light Rock meets a heavy Scissors of differing kind: Rock beats
    // Scissors, so the Scissors' tag flips to Rock, while the velocities
    // follow the elastic law with masses 5 and 25.
    let mut rock = ScreenObject::tagged(Kind::Rock, body(0, 3, 5));
    let mut scissors = ScreenObject::tagged(Kind::Scissors, body(5, -3, 25));
    rock.collide(&mut scissors);
    assert_eq!(rock.kind(), Kind::Rock);
    assert_eq!(scissors.kind(), Kind::Rock);
    assert_eq!(rock.object().velocity().x(), -7);
    assert_eq!(scissors.object().velocity().x(), -1);
    // Positions and masses are untouched.
    assert_eq!(rock.object().position().x(), 0);
    assert_eq!(scissors.object().position().x(), 5);
    assert_eq!(rock.object().mass(), 5);
    assert_eq!(scissors.object().mass(), 25);
}

#[test]
fn object_mut_keeps_the_kind_tag() {
    let mut t = ScreenObject::tagged(Kind::Paper, body(7, 2, 1));
    t.object_mut().next_frame();
    assert_eq!(t.kind(), Kind::Paper);
    assert_eq!(t.object().position().x(), 9);
}
