//! Topology and diagnostics of the machine together.
use crate::hardware::diagnostic::HardwareDiagnostics;
use crate::hardware::topology::{SystemTopology, ThreadPriority};
use vstd::prelude::*;

verus! {

/// Combined hardware monitoring engine
#[derive(Debug)]
pub struct HardwareMonitor {
    pub topology: SystemTopology,
    pub diagnostics: HardwareDiagnostics,
}

impl HardwareMonitor {
    pub fn new(topology: SystemTopology, diagnostics: HardwareDiagnostics) -> (m: Self)
        ensures
            m.topology == topology,
            m.diagnostics == diagnostics,
    {
        Self { topology, diagnostics }
    }

    /// Get optimal core assignment for a thread type; the name of the thread makes no difference
    pub fn assign_optimal_core(&self, _thread_name: &str, priority: ThreadPriority) -> (r: Option<
        u32,
    >)
        ensures
            r == self.topology.core_for(priority),
    {
        self.topology.choose_core(priority)
    }

    /// Check if system is healthy for trading: the topology suits it, and the last thermal state,
    /// where there is one, is safe
    pub fn is_trading_safe(&self) -> (r: bool)
        ensures
            r == (crate::hardware::topology::capable_cores(self.topology.cores@) >= 2 && match
                self.diagnostics.last_thermal {
                Some(t) => t.safe(),
                None => true,
            }),
    {
        if !self.topology.is_hft_suitable() {
            return false;
        }
        if let Some(thermal) = self.diagnostics.get_last_thermal() {
            if !thermal.is_safe() {
                return false;
            }
        }
        true
    }
}

} // verus!
