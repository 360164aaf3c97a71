//! Two-dimensional projectile flight under gravity and quadratic aerodynamic
//! drag.
//!
//! All physical quantities are carried in fixed-point arithmetic: an `i64`
//! counts ticks of one millionth of the corresponding SI unit (metres,
//! seconds, kilograms, and the products thereof). The integrator advances a
//! motion state with a semi-implicit Euler step until the configured stop
//! time is reached or the projectile crosses the ground, and returns the
//! whole recorded trajectory.

pub mod chart;
pub mod fixed;
pub mod inputs;
pub mod laws;
pub mod model;
pub mod physics;
