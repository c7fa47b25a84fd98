//! Adaptive display-brightness controller.
//!
//! The controller observes ambient light and optional on-screen content
//! luminance, learns the brightness a user prefers under each observed
//! condition, and drives the display toward a predicted brightness through
//! a bounded ramp.  All decision logic is verified; the hardware, sensor,
//! persistence and timing collaborators are injected behind small traits.

pub mod controller;
pub mod data;
pub mod interp;
pub mod kalman;
pub mod math;
pub mod ports;
pub mod ramp;

pub use controller::Controller;
pub use data::{Data, Entry};
pub use kalman::Kalman;
pub use ports::{Als, Brightness, Clock, Error, Storage};
