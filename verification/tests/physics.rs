use rps_arena::object::Object;
use rps_arena::position::Position;
use rps_arena::velocity::Velocity;

fn body(x: i64, y: i64, w: u32, h: u32, mass: i64, vx: i64, vy: i64) -> Object {
    Object::new(Position::new(x, y, 10_000, 10_000), w, h, mass, Velocity::new(vx, vy))
}

#[test]
fn clamp_keeps_position_inside_box() {
    let mut p = Position::new(5, 5, 90, 90);
    p.move_distance(3, -2);
    assert_eq!(p.x(), 8);
    assert_eq!(p.y(), 3);
    p.move_distance(1_000, -1_000);
    assert_eq!(p.x(), 90);
    assert_eq!(p.y(), 0);
    p.move_distance(-7, 95);
    assert_eq!(p.x(), 83);
    assert_eq!(p.y(), 90);
}

#[test]
fn clamp_holds_at_exact_edges() {
    let mut p = Position::new(0, 90, 90, 90);
    p.move_distance(0, 0);
    assert_eq!(p.x(), 0);
    assert_eq!(p.y(), 90);
    p.move_distance(-1, 1);
    assert_eq!(p.x(), 0);
    assert_eq!(p.y(), 90);
}

#[test]
fn random_position_stays_in_spawn_region() {
    for _ in 0..100 {
        let p = Position::random(100, 50, 500, 500);
        assert!(1 <= p.x() && p.x() < 100);
        assert!(1 <= p.y() && p.y() < 50);
    }
}

#[test]
fn random_velocity_heads_toward_positive_axes() {
    for _ in 0..100 {
        let v = Velocity::random(12, 7);
        assert!(1 <= v.x() && v.x() < 12);
        assert!(1 <= v.y() && v.y() < 7);
    }
}

#[test]
fn velocity_reversal_and_magnitude() {
    let mut v = Velocity::new(3, -4);
    assert_eq!(v.velocity_squared(), 25);
    v.reverse_x();
    assert_eq!(v.x(), -3);
    assert_eq!(v.y(), -4);
    v.reverse_y();
    assert_eq!(v.x(), -3);
    assert_eq!(v.y(), 4);
    assert_eq!(v.velocity_squared(), 25);
}

#[test]
fn overlap_test_is_symmetric_on_samples() {
    // Plain overlap.
    let a = body(100, 100, 10, 10, 1, 0, 0);
    let b = body(105, 105, 10, 10, 1, 0, 0);
    assert!(a.is_collide_with(&b));
    assert!(b.is_collide_with(&a));
    // Strict containment: one box entirely inside the other.
    let big = body(100, 100, 50, 50, 1, 0, 0);
    let small = body(110, 110, 5, 5, 1, 0, 0);
    assert_eq!(big.is_collide_with(&small), small.is_collide_with(&big));
    assert!(big.is_collide_with(&small));
    // Touching edges count as collision.
    let c = body(110, 100, 10, 10, 1, 0, 0);
    assert!(a.is_collide_with(&c));
    assert!(c.is_collide_with(&a));
    // Disjoint boxes.
    let d = body(200, 200, 10, 10, 1, 0, 0);
    assert!(!a.is_collide_with(&d));
    assert!(!d.is_collide_with(&a));
}

#[test]
fn equal_masses_swap_velocities() {
    let mut a = body(100, 100, 10, 10, 4, 2, 0);
    let mut b = body(105, 100, 10, 10, 4, -2, 0);
    a.collide(&mut b);
    assert_eq!(a.velocity().x(), -2);
    assert_eq!(a.velocity().y(), 0);
    assert_eq!(b.velocity().x(), 2);
    assert_eq!(b.velocity().y(), 0);
    // Positions are untouched by the velocity exchange.
    assert_eq!(a.position().x(), 100);
    assert_eq!(b.position().x(), 105);
}

#[test]
fn unequal_masses_follow_elastic_formula() {
    let mut a = body(0, 0, 10, 10, 5, 3, 0);
    let mut b = body(5, 0, 10, 10, 25, -3, 0);
    a.collide(&mut b);
    // v1' = ((5-25)*3 + 2*25*(-3)) / 30 = -210/30 = -7
    // v2' = ((25-5)*(-3) + 2*5*3) / 30 = -30/30 = -1
    assert_eq!(a.velocity().x(), -7);
    assert_eq!(b.velocity().x(), -1);
    // Momentum is exactly conserved on this sample: 5*3 + 25*(-3) = -60 and
    // 5*(-7) + 25*(-1) = -60.
    let before = 5 * 3 + 25 * (-3);
    let after = 5 * (a.velocity().x() as i128) + 25 * (b.velocity().x() as i128);
    assert_eq!(before, after);
}

#[test]
fn momentum_drift_stays_under_total_mass() {
    // Truncation loses at most (m1 + m2) units of momentum per axis.
    let mut a = body(0, 0, 10, 10, 3, 1, 7);
    let mut b = body(5, 0, 10, 10, 5, 0, -2);
    let p_before_x: i128 = 3 * 1 + 5 * 0;
    let p_before_y: i128 = 3 * 7 + 5 * (-2);
    a.collide(&mut b);
    let p_after_x = 3 * (a.velocity().x() as i128) + 5 * (b.velocity().x() as i128);
    let p_after_y = 3 * (a.velocity().y() as i128) + 5 * (b.velocity().y() as i128);
    assert!((p_after_x - p_before_x).abs() < 8);
    assert!((p_after_y - p_before_y).abs() < 8);
}

#[test]
fn integration_moves_by_velocity() {
    let mut a = body(100, 200, 10, 10, 1, 3, -4);
    a.next_frame();
    assert_eq!(a.position().x(), 103);
    assert_eq!(a.position().y(), 196);
    assert_eq!(a.velocity().x(), 3);
    assert_eq!(a.velocity().y(), -4);
}

#[test]
fn bounding_ranges_span_the_box() {
    let a = body(100, 200, 10, 20, 1, 0, 0);
    assert_eq!(a.range_x(), (100, 110));
    assert_eq!(a.range_y(), (200, 220));
}

#[test]
fn velocity_mut_gives_write_access() {
    let mut a = body(0, 0, 10, 10, 1, 5, 6);
    a.velocity_mut().reverse_x();
    assert_eq!(a.velocity().x(), -5);
    assert_eq!(a.velocity().y(), 6);
}
