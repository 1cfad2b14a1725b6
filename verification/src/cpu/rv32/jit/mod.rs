//! Just-in-time compilation support for the 32-bit core.
//!
//! - v1: basic block caching
//! - v2: page-based regions with control-flow analysis

pub mod v1;
pub mod v2;
