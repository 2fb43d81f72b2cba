//! A verified core of a small operating-system bring-up stack: the data
//! carried from the boot environment to the kernel, a bitmap-backed physical
//! frame allocator, a PCI configuration-space enumerator, and the ELF segment
//! planning and loading done by the boot loader.

pub mod allocator;
pub mod bootinfo;
pub mod device_info;
pub mod graphics;
pub mod loader;
pub mod usb;
pub mod pci;
