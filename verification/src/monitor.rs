//! Watching the clipboard and showing each change as it happens.

use vstd::prelude::*;

verus! {

/// Continuously watches the clipboard and displays its content whenever it
/// changes, until the user asks to stop.
pub trait Monitor {
    /// Runs the monitor; consumes the clipboard handle.
    fn monitor(self);
}

} // verus!
