//! A verified locomotion core for an articulated, legged creature.
//!
//! The creature's body is a chain of segments (a steerable head followed by
//! vertebrae) that tracks a target point with a distance-constrained follow
//! pass. Paired foot actuators perform discrete, alternating steps, and a
//! ribbon skin mesh is rebuilt over the chain every frame.
//!
//! All geometry is carried in fixed-point coordinates: an `i64` holds a
//! signed multiple of `1 / UNIT` world units, so every computation here is
//! exact integer arithmetic with proved error bounds.

pub mod fixed;
pub mod vec2;
pub mod chain;
pub mod feet;
pub mod mesh;
pub mod gaze;
pub mod creature;
pub mod builders;
