//! Runtime core of a declarative UI engine: reactive value cells with eased
//! transitions, type-erased per-node state, and an incremental expansion
//! driver that turns a static instance tree into a live node tree each frame,
//! including content projection through slots.
//!
//! All fractional quantities are carried as milli-scaled integers, so that
//! every computation here has an exact arithmetic meaning.

pub mod color;
pub mod common;
pub mod coproduct;
pub mod easing;
pub mod events;
pub mod instance;
pub mod interpolation;
pub mod literals;
pub mod numeric;
pub mod occlusion;
pub mod paint;
pub mod property;
pub mod runtime;
pub mod size;
pub mod templating;
pub mod transform;
pub mod transition;
