//! The navigation frame: it watches the connection of the selected device.
use vstd::prelude::*;

verus! {

/// Whether the periodic check finds the selected device gone: a device is
/// selected (its id is not empty) and it no longer reports connected.
pub fn connection_lost(current_id: &str, still_connected: bool) -> (lost: bool)
    ensures
        lost == (current_id@.len() > 0 && !still_connected),
{
    !current_id.is_empty() && !still_connected
}

} // verus!
