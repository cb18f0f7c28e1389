//! Binaural rendering of a mono signal through measured head-related impulse
//! responses, in exact fixed-point arithmetic.

pub mod convolution;
pub mod error;
pub mod fixed;
pub mod geometry;
pub mod pipeline;
pub mod response;
pub mod selector;
