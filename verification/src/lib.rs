//! Typed control layer for the `cpuset` control-group subsystem.
//!
//! A control group is a directory of pseudo-files; reading a file yields the
//! subsystem's current state for that group, writing one mutates kernel
//! scheduling and memory-placement behaviour.  This crate holds the logic of
//! that text protocol: path resolution inside the hierarchy, the scalar codec
//! for the boolean / integer / range-string value shapes the pseudo-files use,
//! the typed per-property setters, and the defaulted state snapshot.  The file
//! I/O itself is left to the embedding program, which performs the write
//! requests this crate produces and hands back raw file contents.

pub mod codec;
pub mod controller;

pub use controller::CgroupError;
pub use controller::CpuSetController;
pub use controller::CpuResources;
pub use controller::CpuSet;
pub use controller::RawState;
pub use controller::Subsystem;
pub use controller::WriteRequest;
