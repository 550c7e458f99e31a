//! Equalizer: the filter and target enums, preset names and the per-sink
//! state file's line format, Sonar preset import, and the spatial-audio
//! settings blob.
pub mod model;
pub mod presets;
pub mod sonar;
pub mod spatial;
