//! Devices: UART, PLIC, CLINT, the VirtIO MMIO transport, the 9P file
//! server and the device tree builder.

pub mod clint;
pub mod plic;
pub mod uart;

pub use clint::Clint;
pub use plic::Plic;
pub use uart::Uart;
pub mod virtio;

pub use virtio::VirtioMmio;
pub mod virtio_9p;
pub mod wire;

pub use virtio_9p::Virtio9p;
pub mod dtb;
