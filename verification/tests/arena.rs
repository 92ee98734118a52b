use rps_arena::object::{Object, V_LIMIT};
use rps_arena::position::Position;
use rps_arena::screen::{Collision, Screen, Wall};
use rps_arena::screen_object::{Kind, ScreenObject};
use rps_arena::velocity::Velocity;

fn tagged(k: Kind, x: i64, y: i64, vx: i64, vy: i64) -> ScreenObject {
    ScreenObject::tagged(
        k,
        Object::new(Position::new(x, y, 990, 990), 10, 10, 1, Velocity::new(vx, vy)),
    )
}

#[test]
fn single_body_bounces_off_the_left_wall() {
    // A 10x10 body at the origin of a 100x100 arena moving by (-1, -1): the
    // left wall wins the priority order, so only velocity.x is reversed; the
    // move then lands at (1, -1) and the clamp lifts it to (1, 0).
    let mut screen = Screen::new(100, 100);
    let body = Object::new(Position::new(0, 0, 90, 90), 10, 10, 1, Velocity::new(-1, -1));
    let id = screen.add_object(ScreenObject::tagged(Kind::Rock, body));
    assert_eq!(id, 0);
    screen.next_frame();
    let after = screen.object_at(0).object();
    assert_eq!(after.position().x(), 1);
    assert_eq!(after.position().y(), 0);
    assert_eq!(after.velocity().x(), 1);
    assert_eq!(after.velocity().y(), -1);
}

#[test]
fn wall_priority_in_a_corner_is_left_first() {
    let mut screen = Screen::new(100, 100);
    let body = Object::new(Position::new(0, 0, 90, 90), 10, 10, 1, Velocity::new(-1, -1));
    screen.add_object(ScreenObject::tagged(Kind::Rock, body));
    assert_eq!(screen.classify(0), Collision::HitWall(Wall::Left));
}

#[test]
fn each_wall_reverses_its_axis() {
    let mut screen = Screen::new(1000, 1000);
    // Right wall: the body's right edge reaches the arena width.
    screen.add_object(tagged(Kind::Rock, 990, 500, 4, 1));
    // Top wall.
    screen.add_object(tagged(Kind::Rock, 500, 0, 1, -5));
    // Bottom wall.
    screen.add_object(tagged(Kind::Rock, 700, 990, 1, 6));
    assert_eq!(screen.classify(0), Collision::HitWall(Wall::Right));
    assert_eq!(screen.classify(1), Collision::HitWall(Wall::Top));
    assert_eq!(screen.classify(2), Collision::HitWall(Wall::Bottom));
    screen.next_frame();
    assert_eq!(screen.object_at(0).object().velocity().x(), -4);
    assert_eq!(screen.object_at(0).object().velocity().y(), 1);
    assert_eq!(screen.object_at(1).object().velocity().y(), 5);
    assert_eq!(screen.object_at(2).object().velocity().y(), -6);
}

#[test]
fn free_body_just_integrates() {
    let mut screen = Screen::new(1000, 1000);
    screen.add_object(tagged(Kind::Paper, 100, 200, 3, -4));
    assert_eq!(screen.classify(0), Collision::NoCollision);
    screen.next_frame();
    let after = screen.object_at(0).object();
    assert_eq!(after.position().x(), 103);
    assert_eq!(after.position().y(), 196);
}

#[test]
fn wall_hit_wins_over_body_overlap() {
    let mut screen = Screen::new(1000, 1000);
    screen.add_object(tagged(Kind::Rock, 5, 100, 0, 0));
    screen.add_object(tagged(Kind::Paper, 0, 100, 0, 0));
    // Body 1 overlaps body 0, but it also touches the left wall, and the
    // wall test comes first.
    assert_eq!(screen.classify(1), Collision::HitWall(Wall::Left));
}

#[test]
fn body_scan_last_match_wins() {
    let mut screen = Screen::new(1000, 1000);
    screen.add_object(tagged(Kind::Rock, 100, 100, 0, 0));
    screen.add_object(tagged(Kind::Rock, 105, 105, 0, 0));
    screen.add_object(tagged(Kind::Rock, 102, 102, 0, 0));
    // Body 2 overlaps both earlier bodies; the last one scanned wins.
    assert_eq!(screen.classify(2), Collision::HitBody(1));
}

#[test]
fn pairing_resolves_battle_physics_and_moves_both() {
    let mut screen = Screen::new(1000, 1000);
    screen.add_object(tagged(Kind::Rock, 100, 100, 2, 0));
    screen.add_object(tagged(Kind::Scissors, 105, 100, -2, 0));
    assert_eq!(screen.classify(1), Collision::HitBody(0));
    screen.next_frame();
    // Body 0 was classified NoCollision and moved to 102; the pairing then
    // swapped the equal-mass velocities and moved both partners once more:
    // body 0 back to 100, body 1 from 105 to 107. The Scissors lost the
    // battle and turned Rock.
    let a = screen.object_at(0);
    let b = screen.object_at(1);
    assert_eq!(a.kind(), Kind::Rock);
    assert_eq!(b.kind(), Kind::Rock);
    assert_eq!(a.object().position().x(), 100);
    assert_eq!(a.object().velocity().x(), -2);
    assert_eq!(b.object().position().x(), 107);
    assert_eq!(b.object().velocity().x(), 2);
}

#[test]
fn identifiers_are_dense_and_stable() {
    let mut screen = Screen::new(1000, 1000);
    assert_eq!(screen.len(), 0);
    assert_eq!(screen.add_object(tagged(Kind::Rock, 100, 100, 1, 1)), 0);
    assert_eq!(screen.add_object(tagged(Kind::Paper, 300, 300, 1, 1)), 1);
    assert_eq!(screen.add_object(tagged(Kind::Scissors, 500, 500, 1, 1)), 2);
    assert_eq!(screen.len(), 3);
    assert_eq!(screen.object_at(1).kind(), Kind::Paper);
}

#[test]
fn object_count_tracks_kinds_through_battles() {
    let mut screen = Screen::new(1000, 1000);
    screen.add_object(tagged(Kind::Rock, 100, 100, 2, 0));
    screen.add_object(tagged(Kind::Scissors, 105, 100, -2, 0));
    screen.add_object(tagged(Kind::Paper, 500, 500, 0, 0));
    assert_eq!(screen.object_count(), (1, 1, 1));
    screen.next_frame();
    // The Scissors body lost to the Rock and converted.
    assert_eq!(screen.object_count(), (2, 1, 0));
}

#[test]
fn can_add_measures_energy_headroom() {
    let mut screen = Screen::new(1000, 1000);
    let calm = tagged(Kind::Rock, 100, 100, 3, 4);
    assert!(screen.can_add(&calm));
    screen.add_object(calm);
    // A body carrying the full energy budget on one axis fits an empty
    // arena but not one that already holds any moving body.
    let extreme = ScreenObject::tagged(
        Kind::Paper,
        Object::new(Position::new(500, 500, 990, 990), 10, 10, 1, Velocity::new(V_LIMIT, 0)),
    );
    let empty = Screen::new(1000, 1000);
    assert!(empty.can_add(&extreme));
    assert!(!screen.can_add(&extreme));
}

#[test]
fn fast_body_is_clamped_into_its_box() {
    let mut screen = Screen::new(1000, 1000);
    screen.add_object(tagged(Kind::Rock, 500, 500, 100_000, -100_000));
    screen.next_frame();
    let after = screen.object_at(0).object();
    assert_eq!(after.position().x(), 990);
    assert_eq!(after.position().y(), 0);
}

#[test]
fn long_run_keeps_bodies_inside_the_arena() {
    let mut screen = Screen::new(1000, 1000);
    screen.add_object(tagged(Kind::Rock, 100, 100, 7, 3));
    screen.add_object(tagged(Kind::Paper, 400, 200, -5, 11));
    screen.add_object(tagged(Kind::Scissors, 700, 600, 2, -9));
    screen.add_object(tagged(Kind::Rock, 250, 800, -13, -1));
    for _ in 0..500 {
        screen.next_frame();
    }
    for id in 0..screen.len() {
        let p = screen.object_at(id).object().position();
        assert!(0 <= p.x() && p.x() <= 990);
        assert!(0 <= p.y() && p.y() <= 990);
    }
    // Kinds only ever flip between the three values; every body still has one.
    let (rock, paper, scissors) = screen.object_count();
    assert_eq!(rock + paper + scissors, 4);
}

#[test]
fn arena_dimensions_are_kept() {
    let screen = Screen::new(800, 600);
    assert_eq!(screen.width(), 800);
    assert_eq!(screen.height(), 600);
}
