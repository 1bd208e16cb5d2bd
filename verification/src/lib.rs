//! A quaternion-based complementary attitude filter (AHRS) with integrated
//! gyroscope-bias estimation and a hysteretic disturbance detector that
//! attenuates accelerometer correction while a transient non-gravitational
//! acceleration is present.
//!
//! All arithmetic is carried out on fixed-point values: an `i64` holds a real
//! number scaled by `fixed::SCALE` (2^16). Every operation's contract states
//! the exact integer value it computes, so the whole filter step is pinned
//! down value-for-value.

pub mod disturbance;
pub mod fixed;
pub mod vec3;
pub mod quat;
pub mod filter;
