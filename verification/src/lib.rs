//! Bounded, allocation-aware preparation stages for remote MCAP inputs.
//!
//! Every module here is verified: the binary Summary census, materialization and definition
//! checks, the physical-region and message-index validation, the ambiguous zero-time probe, the
//! aggregate admission budgets and bounded ROS 2 message-definition grammar with its exact
//! arenas, the typed dispatch output tables, the typed outcomes of runtime-identifier interning,
//! the vocabulary types of seek ownership and the raw-time canonicalization.

pub mod mcap_opcodes;
pub mod remote_ros2_reflection;
pub mod remote_runtime_intern;
pub mod remote_seek;
pub mod remote_summary;
pub mod remote_time;
pub mod remote_typed_output;
