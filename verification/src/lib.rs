//! A small x86_64 kernel's verified core: the hand-off structures between the
//! UEFI loader and the kernel, the bitmap frame allocator, the planning of the
//! kernel image load and the 16550 serial port protocol.
pub mod bits;
pub mod boot_info;
pub mod frame;
pub mod frame_laws;
pub mod frame_model;
pub mod kernel_image;
pub mod logger;
pub mod memory;
pub mod serial;
pub mod uefi_memory;
