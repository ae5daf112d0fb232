//! A snapshot of the monitor that shows the window.

use vstd::prelude::*;

verus! {

/// What is known of the monitor that shows the window, all of it in fixed
/// point: the monitor's size in logical units, the factor from logical units
/// to the monitor's physical pixels, and that factor as the window has it.
#[derive(Clone, Copy, Debug, PartialEq, Eq, Structural)]
pub struct MonitorMetrics {
    pub window_scale_factor: i64,
    pub scale_factor: i64,
    pub width: i64,
    pub height: i64,
}

} // verus!
