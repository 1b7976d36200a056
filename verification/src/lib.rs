//! A verified model of the earliest boot path of a small x86 teaching kernel:
//! the ATA PIO sector reader, the executable loader, the stage-1 mode-switch
//! state machine, the kernel-entry paging bootstrap, the kernel's first
//! words on the serial console, and the boot-image layout.
//!
//! The routines reach the machine through [`machine::Hardware`], a small
//! hardware-access interface: port I/O and single-byte accesses to physical
//! memory. [`machine::Machine`] is the simulated backend: physical memory, a
//! raw disk behind a legacy ATA controller, a keyboard controller, the
//! status bytes the two controllers are going to report, and a record of
//! every port read, port write and store. Every routine states exactly which
//! bytes of memory it writes and which accesses it issues, in which order.

pub mod consts;
pub mod elf;
pub mod machine;
pub mod disk;
pub mod outcome;
pub mod loader;
pub mod image;
pub mod trap;
pub mod paging;
pub mod boot;
pub mod kernel;
