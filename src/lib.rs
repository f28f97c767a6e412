//! Exact ray casting on an integer grid for a first-person view of a walled
//! arena.
//!
//! Walls are segments between grid points; a ray meets a wall where the
//! two-by-two system of their lines has a solution that lies on the wall and
//! ahead of the ray. Solutions are kept as exact fractions, so the nearest wall
//! a ray meets is found without rounding, and does not depend on the order in
//! which the walls are tested. Held movement inputs are summed into one
//! signed step per axis for each tick.
use vstd::prelude::*;

pub mod boundary;
pub mod geometry;
pub mod movement;
pub mod ray;
pub mod render;

verus! {

} // verus!
