//! Commands from the tray icon to the main window.
use vstd::prelude::*;

verus! {

/// A tray menu choice.
#[derive(Debug, Clone, Copy, PartialEq, Eq, Structural)]
pub enum TrayCommand {
    Show,
    Quit,
}

} // verus!
