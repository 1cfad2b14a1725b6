//! RISC-V emulator core: instruction decoding, CPU state and execution,
//! Sv32/Sv39 address translation, interrupt controllers, UART, VirtIO
//! transport and a 9P2000.L file server, with the system glue around them.

pub mod bits;
pub mod cli;
pub mod compress;
pub mod cpu;
pub mod devices;
pub mod memory;
pub mod snapshot;
pub mod system;
pub mod system64;

pub use compress::{decompress_gzip, decompress_zstd};
pub use system::System;
pub use system64::System64;
