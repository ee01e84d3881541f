//! Core of a live tone generator: note arithmetic, the shared control
//! parameters, and the click-free ramping of the running oscillator.

pub mod clock;
pub mod notes;
pub mod params;
pub mod ramp;
pub mod render;

pub use crate::notes::{key_note_name, key_note_octave};
pub use crate::params::{AudioParams, ControlMessage};
pub use crate::render::RenderState;
