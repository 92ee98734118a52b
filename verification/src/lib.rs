//! A small 2D simulation: rectangular bodies bounce inside a bounded arena,
//! collide elastically with the walls and with each other, and carry a
//! rock/paper/scissors kind that flips when two differently-kinded bodies
//! touch.
//!
//! All kinematics are exact integer arithmetic: coordinates, velocities and
//! masses are plain `i64` values in an arbitrary fixed unit chosen by the
//! caller (a renderer may interpret one unit as a millionth of a pixel, say).
//! Every geometric and physical rule is stated as a specification and proved.

pub mod object;
pub mod position;
pub mod rng;
pub mod screen;
pub mod screen_object;
pub mod velocity;
