//! A verified pixel-effect engine for 8-bit RGBA buffers.
//!
//! The engine adjusts brightness, contrast and colour temperature and applies
//! a separable box blur, each in place on a caller-owned buffer. Every effect
//! is specified as a mathematical function from the old buffer to the new one,
//! and each executable routine is proved to compute exactly that function.
//! Effect strengths are exact rationals, so all arithmetic is integer
//! arithmetic with a stated rounding rule.

pub mod blur;
pub mod engine;
pub mod laws;
pub mod layout;
pub mod pipeline;
pub mod ratio;
pub mod tone;

pub use blur::Axis;
pub use engine::{EffectError, ImageProcessor};
pub use ratio::Ratio;
