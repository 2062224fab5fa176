//! Game-level glue that runs inside the tick.

use vstd::prelude::*;
use crate::framework::DebugMode;

verus! {

/// The debug mode after the toggle key is handled: a press flips between
/// no diagnostics and the frame-rate display; without a press nothing
/// changes.
pub open spec fn spec_debug_toggled(mode: DebugMode, pressed: bool) -> DebugMode {
    if pressed {
        match mode {
            DebugMode::Off => DebugMode::ShowFps,
            _ => DebugMode::Off,
        }
    } else {
        mode
    }
}

/// Handles the debug-toggle key for this tick.
pub fn update(debug_toggle_pressed: bool, debug_mode: &mut DebugMode)
    ensures
        *final(debug_mode) == spec_debug_toggled(*old(debug_mode), debug_toggle_pressed),
{
    if debug_toggle_pressed {
        match debug_mode {
            DebugMode::Off => {
                *debug_mode = DebugMode::ShowFps;
            },
            _ => {
                *debug_mode = DebugMode::Off;
            },
        }
    }
}

} // verus!
