//! Allocation-free admission of ROS 2 message definitions for the remote decoder.
//!
//! The grammar is a strict V1 subset of the local ROS 2 reflection parser. Every byte scan is
//! charged to an exact step owner, so a definition either validates within its step budget or
//! fails with a typed resource error before anything is allocated.
use vstd::prelude::*;

pub mod admission;
pub mod arenas;
pub mod budget;
pub mod census;
pub mod dependencies;
pub mod lexer;
pub mod materialization;
pub mod literals;
pub mod members;
pub mod names;
pub mod policy;
pub mod specs;
pub mod steps;
pub mod transition;
pub mod types;
pub mod walk;

verus! {

} // verus!
