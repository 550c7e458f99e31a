//! ChatMix companion library for the SteelSeries Arctis Nova Elite: HID
//! report decoding, virtual-sink routing state, EQ model, and the clipping
//! subsystem's controllers and parsers.
use vstd::prelude::*;

pub mod text;
pub mod tray;
pub mod paths;
pub mod audio;
pub mod clips;
pub mod desktop;
pub mod eq;
pub mod hid;

verus! {
} // verus!
