//! Aardvark's performance-triggered view change.

use vstd::prelude::*;

verus! {

/// Performance-monitoring trigger for view change.
#[derive(Clone, Copy, Debug)]
pub struct PerfMonitor {
    /// Throughput below which to trigger a view change.
    pub threshold_ops_per_sec: u32,
    /// Window over which throughput is measured.
    pub window_ops: u32,
}

impl PerfMonitor {
    /// Whether the observed throughput is below the threshold.
    pub fn should_view_change(&self, observed: u32) -> (r: bool)
        ensures
            r == (observed < self.threshold_ops_per_sec),
    {
        observed < self.threshold_ops_per_sec
    }
}

} // verus!
