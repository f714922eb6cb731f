//! A small verified linear-algebra core (scalars, vectors, matrices) and a
//! discrete-time rigid-body physics world built on top of it.
//!
//! All arithmetic is exact, over `i64` components. Quantities that are
//! conventionally real-valued (gravity, surface coefficients) are held in a
//! fixed-point form: a caller picks a unit for world quantities, and the
//! friction and restitution coefficients are stated in thousandths
//! (see `physics_objects::COEFF_SCALE`).

pub mod math;
pub mod matrix;
pub mod physics_objects;
