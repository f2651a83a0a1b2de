//! The decision logic of a controller that turns the tones of a handheld console,
//! heard on a stereo microphone, into key presses and mouse moves, and of the
//! calibration that records those tones.
//!
//! - [`flags`]: the command-line flags.
//! - [`layout`]: the console's inputs and the keys they press.
//! - [`tones`]: tone zones and the search for the button a tone stands for.
//! - [`screen`]: where a touch-screen tone points, and the mouse position for it.
//! - [`controller`]: from each pair of channel tones to input events.
//! - [`calibration`]: recording the tones and the screen corners.
//! - [`store`]: the calibration files.
use vstd::prelude::*;

pub mod flags;
pub mod layout;
pub mod tones;
pub mod screen;
pub mod controller;
pub mod calibration;
pub mod store;

verus! {

} // verus!
