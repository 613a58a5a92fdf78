//! A small gravitational playground: planets that attract one another and bounce when
//! they touch.
//!
//! Every real number is an IEEE-754 single-precision value carried by its bit pattern
//! (`u32`). The library owns the bodies, the order in which they meet, and the bookkeeping
//! around a frame; the floating-point formulas themselves are handed in by the host as a
//! [`physics::Physics`] value, and every contract says exactly what those formulas are
//! asked and where their answers go.

pub mod vector;
pub mod physics;
pub mod planet;
pub mod step;
pub mod store;
pub mod params;
pub mod input;
pub mod panel;
