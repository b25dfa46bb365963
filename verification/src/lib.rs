//! Memory-and-storage core of a small x86-64 kernel.
//!
//! The crate holds the verified logic of the kernel: PCI configuration-space
//! enumeration, physical frame allocation, page mapping, a bump heap, a
//! legacy virtio block driver, and the pure parts of the console, keyboard
//! and shell subsystems.  Hardware access (port I/O, the real page tables,
//! DMA) sits behind small traits whose contracts describe what any backend
//! must guarantee; the crate ships verified in-memory backends for them.

pub mod console;
pub mod errors;
pub mod frame;
pub mod fs;
pub mod graphics;
pub mod heap;
pub mod interrupts;
pub mod keyboard;
pub mod mem;
pub mod paging;
pub mod pci;
pub mod shell;
pub mod virtio;
