//! Hardware awareness: processors, memory nodes, interrupts and thermal state.
pub mod config;
pub mod cpu_pin;
pub mod diagnostic;
pub mod irq_affinity;
pub mod isolcpus;
pub mod monitor;
pub mod numa;
pub mod topology;
pub mod tuning;
