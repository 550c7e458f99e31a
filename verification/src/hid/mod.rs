//! The headset's HID reports.
pub mod device;
pub mod protocol;
