//! Verified engine for a strip of addressable RGB LEDs.
//!
//! The crate computes, frame by frame, the RGB value of every pixel of a
//! linear strip for a set of named lighting patterns (pulse, chase, sparkle,
//! scanning bar, ember flicker, multi-color spray) over an HSV color model.
//! Brightness is carried as a fixed-point fraction in thousandths, so every
//! formula is exact integer arithmetic with a stated rounding rule.
//!
//! Pushing a frame to the physical strip and pacing frames are the transport
//! collaborator's concern and live outside this crate; the engine hands the
//! caller the complete frame sequence of one pattern invocation.

pub mod color;
pub mod controller;
pub mod patterns;
mod rng;

pub use color::hsv_to_rgb;
pub use color::rgb_to_hsv;
pub use controller::Color;
pub use controller::ColorwayPattern;
pub use controller::EasyBlinkController;
pub use controller::Pattern;
