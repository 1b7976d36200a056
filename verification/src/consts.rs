//! Fixed I/O addresses and command bytes of the legacy ATA PIO controller,
//! and the boot-time layout constants shared by the loader and the image.

use vstd::prelude::*;

verus! {

/// I/O port for reading and writing data (16-bit or 32-bit transfers).
pub const ATA_DATA: u16 = 0x1F0;

/// I/O port holding the number of sectors to transfer.
pub const ATA_SEC_CNT: u16 = 0x1F2;

/// Bits 0-7 of the 28-bit logical block address.
pub const ATA_LBA_LO: u16 = 0x1F3;

/// Bits 8-15 of the 28-bit logical block address.
pub const ATA_LBA_MID: u16 = 0x1F4;

/// Bits 16-23 of the 28-bit logical block address.
pub const ATA_LBA_HI: u16 = 0x1F5;

/// Drive/head register: bits 24-27 of the address plus the drive selector.
pub const ATA_DRIVE: u16 = 0x1F6;

/// Command register when written, status register when read.
pub const ATA_STATUS: u16 = 0x1F7;

/// ATA command: read sectors using 28-bit LBA.
pub const ATA_CMD_READ: u8 = 0x20;

/// Drive/head selector for the master drive in LBA mode.
///
/// Bit 7 and bit 5 are legacy bits that are always set, bit 6 selects LBA
/// addressing, bit 4 selects the drive (0 = master); the low nibble carries
/// bits 24-27 of the sector address.
pub const ATA_DRIVE_MASTER: u8 = 0xE0;

/// Status bit 7: the drive is busy.
pub const ATA_STATUS_BSY: u8 = 0x80;

/// Status bit 6: the drive is ready.
pub const ATA_STATUS_RDY: u8 = 0x40;

/// Keyboard-controller command/status port.
pub const KBC_COMMAND: u16 = 0x64;

/// Keyboard-controller data port.
pub const KBC_DATA: u16 = 0x60;

/// Keyboard-controller status bit 1: the input buffer is full.
pub const KBC_STATUS_BUSY: u8 = 0x02;

/// Keyboard-controller command: the next data byte goes to the output port.
pub const KBC_CMD_WRITE_OUTPUT: u8 = 0xD1;

/// Output-port value that opens the A20 gate.
pub const KBC_A20_ON: u8 = 0xDF;

/// Size of a disk sector in bytes; the sole granularity of disk I/O.
pub const SECTOR_SIZE: u32 = 512;

/// Number of 32-bit words in one sector.
pub const SECTOR_WORDS: u32 = 128;

/// Physical address at which the head of the kernel image is staged.
pub const SCRATCH_ADDR: u32 = 0x10000;

/// Number of bytes of the kernel image staged at [`SCRATCH_ADDR`]; enough to
/// cover the executable header and its segment table.
pub const SCRATCH_SIZE: u32 = 4096;

/// Byte offset on disk at which the kernel image begins: directly after the
/// boot sector.
pub const KERNEL_DISK_OFFSET: u32 = 512;

/// Number of bytes of boot code that fit in front of the boot signature.
pub const BOOT_CODE_MAX: usize = 510;

/// The two bytes that mark a sector as bootable, at offsets 510 and 511.
pub const BOOT_SIGNATURE_LO: u8 = 0x55;

/// Second byte of the boot signature.
pub const BOOT_SIGNATURE_HI: u8 = 0xAA;

} // verus!
