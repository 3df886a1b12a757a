//! Continuous collision detection for moving 2D shapes.
//!
//! Scalars are exact rational numbers, so the geometric predicates and the
//! sweep solvers are exact; the square roots that arise in circle sweeps are
//! replaced by a floor square root on a fixed 1/256 grid, whose value the
//! contracts pin down exactly.

pub mod scalar;
pub mod sqrt;
pub mod vector;
pub mod range;
pub mod frame;
pub mod circle;
pub mod rectangle;
pub mod segment;
pub mod shape;
pub mod phys_obj;
pub mod laws;
