//! JIT v2: hotness-based region compilation with control-flow analysis.

pub mod cfg;
pub mod codegen;
pub mod discovery;
pub mod execute;
pub mod state;
pub mod types;
pub mod wasm;
