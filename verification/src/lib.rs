//! Verified core of a smooth mouse-wheel scrolling service: scroll settings,
//! built-in profiles, wheel-source selection and the virtual touchpad gesture
//! that carries converted scroll motion.

pub mod text;
pub mod device;
pub mod frame;
pub mod gesture;
pub mod profile;
pub mod settings;
pub mod settle;
pub mod window;

pub use frame::{Axis, Frame};
pub use settings::{AccelerationCurve, AnalyzerMode, Direction};
