//! Adaptive performance control for rooted Android devices: the tick state
//! machine that picks a coarse profile, the frame-aware scaling controller,
//! the administrative line protocol and the core-topology affinity helper.

pub mod text;
pub mod types;
pub mod buffer;
pub mod fas;
pub mod command;
pub mod ipc;
pub mod config;
pub mod tick;
pub mod cpu;
pub mod tuning;
pub mod telemetry;
