//! Audio routing state: the virtual sinks and their names, the parsers for
//! `pactl` listings, and the persisted app assignments, mixer routing and
//! volumes.

pub mod discovery;
pub mod eq_chains;
pub mod persistence;
pub mod router;
pub mod sinks;
pub mod state_sync;
