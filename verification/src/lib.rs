//! Fixed-point engine for daily prayer-time computation.
//!
//! Every real-valued quantity (degrees, hours, days) is carried as a signed
//! 64-bit integer scaled by `math::SCALE` units per whole degree, hour or day.

pub mod astro;
pub mod datetime;
pub mod error;
pub mod math;
pub mod times;

pub use math::SCALE;
