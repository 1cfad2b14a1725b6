//! Code generation backends for regions: the interpreter, and the
//! compilability check of the native backend.

pub mod dynasm;
pub mod interp;
