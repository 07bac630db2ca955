//! A small process-supervisor library: a registry of named launch
//! configurations, a registry of running service instances, and per-instance
//! append-only log records filled by concurrent capture tasks.
//!
//! The library holds the supervisor's state and decision logic. The
//! surrounding application performs the operating-system work (spawning,
//! signalling, polling, blocking reads) and feeds the outcomes back in as
//! plain events.

pub mod config;
pub mod log;
pub mod supervisor;
