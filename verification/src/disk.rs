//! Synchronous, polling ATA PIO sector reader.
//!
//! All reads are whole sectors; a byte range is satisfied by reading the
//! sectors that enclose it.

use vstd::prelude::*;
use crate::consts::{
    ATA_CMD_READ, ATA_DATA, ATA_DRIVE, ATA_DRIVE_MASTER, ATA_LBA_HI, ATA_LBA_LO, ATA_LBA_MID,
    ATA_SEC_CNT, ATA_STATUS, ATA_STATUS_BSY, ATA_STATUS_RDY, SECTOR_SIZE, SECTOR_WORDS,
};
use crate::machine::{
    lemma_polled_step, overlay, polls_needed, status_ready, BusEvent, Device, Hardware,
    MachineView,
};

verus! {

/// The sector a 32-bit index addresses: its low 28 bits.
pub open spec fn lba28(sector: u32) -> int {
    sector as int % 0x1000_0000
}

/// The 512 bytes of sector `index` of `disk`.
pub open spec fn sector_bytes(disk: Seq<u8>, index: int) -> Seq<u8> {
    disk.subrange(512 * index, 512 * index + 512)
}

/// The port accesses that transfer one sector into memory at `dst` once the
/// drive is ready: sector count, the four groups of the sector address (the
/// top one combined with the master/LBA selector), the read command, and
/// the data transfer.
pub open spec fn sector_trace(dst: u32, sector: u32) -> Seq<BusEvent> {
    seq![
        BusEvent::Out { port: ATA_SEC_CNT, value: 1 },
        BusEvent::Out { port: ATA_LBA_LO, value: (sector % 256) as u8 },
        BusEvent::Out { port: ATA_LBA_MID, value: (sector / 256 % 256) as u8 },
        BusEvent::Out { port: ATA_LBA_HI, value: (sector / 65536 % 256) as u8 },
        BusEvent::Out { port: ATA_DRIVE, value: (224 + sector / 16777216 % 16) as u8 },
        BusEvent::Out { port: ATA_STATUS, value: ATA_CMD_READ },
        BusEvent::InsL { port: ATA_DATA, addr: dst, count: 128 },
    ]
}

/// The controller after sector `sector` was read through it.
pub open spec fn device_after_read(sector: u32) -> Device {
    Device {
        sector_count: 1,
        lba_low: (sector % 256) as u8,
        lba_mid: (sector / 256 % 256) as u8,
        lba_high: (sector / 65536 % 256) as u8,
        drive: (224 + sector / 16777216 % 16) as u8,
        cursor: (512 * lba28(sector) + 512) as u64,
        pending: 0,
    }
}

/// Index of the sector that contains byte `file_offset`.
pub open spec fn first_sector(file_offset: u32) -> int {
    file_offset as int / 512
}

/// Number of sectors that cover `bytes_count` bytes starting at
/// `file_offset`.
pub open spec fn sector_span(bytes_count: u32, file_offset: u32) -> int {
    (file_offset + bytes_count + 511) / 512 - file_offset as int / 512
}

/// The address at which the first sector of a range lands: the destination
/// moved back by the offset of the range into its first sector.
pub open spec fn aligned_dest(phys_addr: u32, file_offset: u32) -> int {
    phys_addr - file_offset % 512
}

/// The record of reading `n` consecutive sectors, starting with sector
/// `first`, to consecutive 512-byte slots starting at `dst`, from a drive
/// that is ready at every poll: per sector one status read, the seven
/// accesses of the transfer, and one more status read.
pub open spec fn range_trace(dst: int, first: int, n: int) -> Seq<BusEvent>
    decreases n,
{
    if n <= 0 {
        Seq::empty()
    } else {
        range_trace(dst, first, n - 1) + seq![BusEvent::In { port: ATA_STATUS, value: 0x40 }]
            + sector_trace((dst + 512 * (n - 1)) as u32, (first + n - 1) as u32)
            + seq![BusEvent::In { port: ATA_STATUS, value: 0x40 }]
    }
}

/// The controller after `n` consecutive sectors starting with `first` were
/// read through it.
pub open spec fn device_after_range(device: Device, first: int, n: int) -> Device {
    if n <= 0 {
        device
    } else {
        device_after_read((first + n - 1) as u32)
    }
}

impl MachineView {
    /// The state after sector `sector_offset` was read into memory at
    /// `dst`: a wait for the drive, the seven accesses of the transfer, and
    /// another wait.
    pub open spec fn read_one(self, dst: u32, sector_offset: u32) -> MachineView {
        let ready = self.waited(ATA_STATUS);
        (MachineView {
            memory: overlay(
                self.memory,
                dst as int,
                sector_bytes(self.disk, lba28(sector_offset)),
            ),
            device: device_after_read(sector_offset),
            trace: ready.trace + sector_trace(dst, sector_offset),
            ..ready
        }).waited(ATA_STATUS)
    }

    /// The state after `n` consecutive sectors, starting with sector
    /// `first`, were read one after another to consecutive 512-byte slots
    /// starting at `dst`.
    pub open spec fn read_sectors(self, dst: int, first: int, n: int) -> MachineView
        decreases n,
    {
        if n <= 0 {
            self
        } else {
            self.read_sectors(dst, first, n - 1).read_one(
                (dst + 512 * (n - 1)) as u32,
                (first + n - 1) as u32,
            )
        }
    }

    /// The state after the sectors that enclose `bytes_count` bytes at disk
    /// offset `file_offset` were read so that byte `file_offset` lands at
    /// `phys_addr`.
    pub open spec fn read_range(self, phys_addr: u32, bytes_count: u32, file_offset: u32) -> MachineView {
        self.read_sectors(
            aligned_dest(phys_addr, file_offset),
            first_sector(file_offset),
            sector_span(bytes_count, file_offset),
        )
    }

    /// Whether the sectors of such a read lie on the disk and their
    /// destination lies in memory.
    pub open spec fn range_fits(self, phys_addr: u32, bytes_count: u32, file_offset: u32) -> bool {
        &&& aligned_dest(phys_addr, file_offset) >= 0
        &&& aligned_dest(phys_addr, file_offset) + 512 * sector_span(bytes_count, file_offset)
            <= self.memory.len()
        &&& 512 * (first_sector(file_offset) + sector_span(bytes_count, file_offset))
            <= self.disk.len()
    }
}

/// Waits until the controller is ready to accept commands: reads the status
/// register until a status has "busy" clear and "ready" set, and touches
/// nothing else.
pub fn wait_disk<H: Hardware>(hw: &mut H)
    ensures
        final(hw).state() == old(hw).state().waited(ATA_STATUS),
{
    let ghost before = hw.state();
    let ghost mut i: int = 0;
    proof {
        lemma_polled_step(before, ATA_STATUS, 0);
    }
    loop
        invariant_except_break
            i >= 0,
            hw.state() == before.polled(ATA_STATUS, i),
            polls_needed(ATA_STATUS, hw.state().disk_status) + i == polls_needed(
                ATA_STATUS,
                before.disk_status,
            ),
        invariant
            before == old(hw).state(),
        ensures
            hw.state() == before.waited(ATA_STATUS),
        decreases hw.state().disk_status.len(),
    {
        let ghost feed = hw.state().disk_status;
        let status: u8 = hw.inb(ATA_STATUS);
        assert(((status & (0x80u8 | 0x40u8)) == 0x40u8) <==> (status / 64 % 4 == 1))
            by (bit_vector);
        proof {
            lemma_polled_step(before, ATA_STATUS, i);
            assert(status_ready(ATA_STATUS, status) <==> status as int / 64 % 4 == 1);
            if feed.len() > 0 {
                assert(hw.state().disk_status =~= feed.skip(1));
            }
            i = i + 1;
        }
        if (status & (ATA_STATUS_BSY | ATA_STATUS_RDY)) == ATA_STATUS_RDY {
            break ;
        }
    }
}

/// The task-file registers address sector `lba28(sector)` once the four
/// groups of `sector` have been written to them.
pub proof fn lemma_lba_groups(sector: u32)
    ensures
        sector % 256 + 256 * (sector / 256 % 256) + 65536 * (sector / 65536 % 256) + 16777216 * ((
        224 + sector / 16777216 % 16) % 16) == lba28(sector),
        224 + sector / 16777216 % 16 < 256,
{
    assert((sector % 256) + 256 * ((sector / 256) % 256) + 65536 * ((sector / 65536) % 256)
        + 16777216 * ((sector / 16777216) % 16) == sector % 0x1000_0000) by (bit_vector);
    assert((sector / 16777216) % 16 < 16) by (bit_vector);
}

/// Storing `a` and then `b` directly behind it stores their concatenation.
pub proof fn lemma_overlay_append(mem: Seq<u8>, at: int, a: Seq<u8>, b: Seq<u8>)
    ensures
        overlay(overlay(mem, at, a), at + a.len(), b) == overlay(mem, at, a + b),
{
    assert(overlay(overlay(mem, at, a), at + a.len(), b) =~= overlay(mem, at, a + b));
}

/// Programs the task-file registers for a transfer of the single sector
/// `sector_offset` from the master drive.
pub fn select_sector<H: Hardware>(hw: &mut H, sector_offset: u32)
    ensures
        final(hw).state() == (MachineView {
            device: Device {
                sector_count: 1,
                lba_low: (sector_offset % 256) as u8,
                lba_mid: (sector_offset / 256 % 256) as u8,
                lba_high: (sector_offset / 65536 % 256) as u8,
                drive: (224 + sector_offset / 16777216 % 16) as u8,
                ..old(hw).state().device
            },
            trace: old(hw).state().trace + sector_trace(0, sector_offset).take(5),
            ..old(hw).state()
        }),
        final(hw).state().device.lba() == lba28(sector_offset),
{
    assert(sector_offset & 0xFF == sector_offset % 256) by (bit_vector);
    assert((sector_offset >> 8) & 0xFF == sector_offset / 256 % 256) by (bit_vector);
    assert((sector_offset >> 16) & 0xFF == sector_offset / 65536 % 256) by (bit_vector);
    assert((sector_offset >> 24) & 0x0F == sector_offset / 16777216 % 16) by (bit_vector);
    let top: u8 = ((sector_offset >> 24) & 0x0F) as u8;
    assert(top | 0xE0 == 224 + top) by (bit_vector)
        requires
            top < 16,
    ;
    proof {
        lemma_lba_groups(sector_offset);
    }

    // One sector.
    hw.outb(ATA_SEC_CNT, 1);
    // The 28-bit sector address, split across four ports.
    hw.outb(ATA_LBA_LO, (sector_offset & 0xFF) as u8);
    hw.outb(ATA_LBA_MID, ((sector_offset >> 8) & 0xFF) as u8);
    hw.outb(ATA_LBA_HI, ((sector_offset >> 16) & 0xFF) as u8);
    // Bits 24-27 combined with the master/LBA selector.
    hw.outb(ATA_DRIVE, top | ATA_DRIVE_MASTER);
    assert(final(hw).state().trace =~= old(hw).state().trace + sector_trace(0, sector_offset).take(
        5,
    ));
}

/// Reads one 512-byte sector from the disk into memory at `dst`, using PIO
/// with 28-bit logical block addressing: waits for the drive, programs
/// sector count and address, issues the read command, transfers 128 words
/// from the data port and waits for the drive again.
pub fn read_sector<H: Hardware>(hw: &mut H, dst: u32, sector_offset: u32)
    requires
        dst + 512 <= old(hw).state().memory.len(),
        512 * lba28(sector_offset) + 512 <= old(hw).state().disk.len(),
    ensures
        final(hw).state() == old(hw).state().read_one(dst, sector_offset),
{
    wait_disk(hw);
    let ghost ready = hw.state();
    select_sector(hw, sector_offset);
    // READ SECTORS.
    hw.outb(ATA_STATUS, ATA_CMD_READ);
    // 512 bytes as 128 32-bit words.
    hw.insl(ATA_DATA, dst, SECTOR_WORDS);
    assert(hw.state().trace =~= ready.trace + sector_trace(dst, sector_offset));
    wait_disk(hw);
}

/// Reads `bytes_count` bytes from the disk, starting at byte `file_offset`,
/// into memory at `phys_addr`.
///
/// The disk is read sector by sector. When `file_offset` is not a multiple
/// of the sector size the destination is moved back so that byte
/// `file_offset` still lands at `phys_addr`; the bytes of the enclosing
/// sectors in front of and behind the requested range are written too.
pub fn read_segment<H: Hardware>(hw: &mut H, phys_addr: u32, bytes_count: u32, file_offset: u32)
    requires
        old(hw).state().wf(),
        old(hw).state().range_fits(phys_addr, bytes_count, file_offset),
    ensures
        final(hw).state() == old(hw).state().read_range(phys_addr, bytes_count, file_offset),
        final(hw).state().memory == overlay(
            old(hw).state().memory,
            aligned_dest(phys_addr, file_offset),
            old(hw).state().disk.subrange(
                512 * first_sector(file_offset),
                512 * (first_sector(file_offset) + sector_span(bytes_count, file_offset)),
            ),
        ),
        final(hw).state().disk == old(hw).state().disk,
{
    // Offset of the range into its first sector.
    let offset_into_sector: u32 = file_offset % SECTOR_SIZE;
    // Destination moved back to the start of that sector.
    let dest: u32 = phys_addr - offset_into_sector;
    let start_sector: u32 = file_offset / SECTOR_SIZE;
    // Number of sectors that cover the range, rounded up.
    let end_offset: u64 = file_offset as u64 + bytes_count as u64;
    let total_sectors: u32 = ((end_offset + 511) / 512 - start_sector as u64) as u32;

    let ghost before = hw.state();
    let mut i: u32 = 0;
    while i < total_sectors
        invariant
            i <= total_sectors,
            start_sector + total_sectors <= 0x100_0000,
            before.wf(),
            before == old(hw).state(),
            dest + 512 * total_sectors <= before.memory.len(),
            512 * (start_sector + total_sectors) <= before.disk.len(),
            hw.state() == before.read_sectors(dest as int, start_sector as int, i as int),
        decreases total_sectors - i,
    {
        let target: u32 = dest + i * SECTOR_SIZE;
        let sector_number: u32 = start_sector + i;
        proof {
            lemma_read_sectors_effect(before, dest as int, start_sector as int, i as int);
            assert(lba28(sector_number) == sector_number);
        }
        read_sector(hw, target, sector_number);
        i += 1;
    }
    proof {
        lemma_read_sectors_effect(before, dest as int, start_sector as int, total_sectors as int);
    }
}

/// What reading `n` consecutive sectors does to memory and controller: the
/// bytes of the sectors lie in memory from `dst` on, the registers are those
/// of the last sector read, and disk and keyboard controller are untouched.
pub proof fn lemma_read_sectors_effect(m: MachineView, dst: int, first: int, n: int)
    requires
        0 <= n,
        0 <= first,
        first + n <= 0x1000_0000,
        512 * (first + n) <= m.disk.len(),
        0 <= dst,
        dst + 512 * n <= 0xFFFF_FFFF,
    ensures
        m.read_sectors(dst, first, n).memory == overlay(
            m.memory,
            dst,
            m.disk.subrange(512 * first, 512 * (first + n)),
        ),
        m.read_sectors(dst, first, n).disk == m.disk,
        m.read_sectors(dst, first, n).device == device_after_range(m.device, first, n),
        m.read_sectors(dst, first, n).keyboard == m.keyboard,
        m.read_sectors(dst, first, n).keyboard_status == m.keyboard_status,
    decreases n,
{
    if n > 0 {
        lemma_read_sectors_effect(m, dst, first, n - 1);
        let done = m.disk.subrange(512 * first, 512 * (first + n - 1));
        let next = sector_bytes(m.disk, first + n - 1);
        lemma_overlay_append(m.memory, dst, done, next);
        assert(done + next =~= m.disk.subrange(512 * first, 512 * (first + n)));
        assert(lba28((first + n - 1) as u32) == first + n - 1);
    } else {
        assert(m.memory =~= overlay(m.memory, dst, m.disk.subrange(512 * first, 512 * first)));
    }
}

/// What ends up in memory and on disk after reading `n` sectors depends on
/// memory and disk alone.
pub proof fn lemma_read_sectors_ignores_devices(
    a: MachineView,
    b: MachineView,
    dst: int,
    first: int,
    n: int,
)
    requires
        a.memory == b.memory,
        a.disk == b.disk,
    ensures
        a.read_sectors(dst, first, n).memory == b.read_sectors(dst, first, n).memory,
        a.read_sectors(dst, first, n).disk == b.read_sectors(dst, first, n).disk,
    decreases n,
{
    if n > 0 {
        lemma_read_sectors_ignores_devices(a, b, dst, first, n - 1);
    }
}

/// The record of reading `n` sectors from a ready drive holds nine accesses
/// per sector; those of sector `first + k`, read to address `dst + 512 k`,
/// are entries `9 k` to `9 k + 8`: a status read, the seven accesses of the
/// transfer, a status read.
pub proof fn lemma_range_trace_sectors(dst: int, first: int, n: int, k: int)
    requires
        0 <= k < n,
    ensures
        range_trace(dst, first, n).len() == 9 * n,
        range_trace(dst, first, n)[9 * k] == (BusEvent::In { port: ATA_STATUS, value: 0x40 }),
        range_trace(dst, first, n).subrange(9 * k + 1, 9 * k + 8) == sector_trace(
            (dst + 512 * k) as u32,
            (first + k) as u32,
        ),
        range_trace(dst, first, n)[9 * k + 8] == (BusEvent::In { port: ATA_STATUS, value: 0x40 }),
    decreases n,
{
    let shorter = range_trace(dst, first, n - 1);
    let last = seq![BusEvent::In { port: ATA_STATUS, value: 0x40 }] + sector_trace(
        (dst + 512 * (n - 1)) as u32,
        (first + n - 1) as u32,
    ) + seq![BusEvent::In { port: ATA_STATUS, value: 0x40 }];
    assert(range_trace(dst, first, n) =~= shorter + last);
    if n > 1 {
        lemma_range_trace_sectors(dst, first, n - 1, if k < n - 1 { k } else { 0 });
    }
    assert(shorter.len() == 9 * (n - 1));
    if k < n - 1 {
        assert((shorter + last).subrange(9 * k + 1, 9 * k + 8) =~= shorter.subrange(
            9 * k + 1,
            9 * k + 8,
        ));
    } else {
        assert((shorter + last).subrange(9 * k + 1, 9 * k + 8) =~= sector_trace(
            (dst + 512 * k) as u32,
            (first + k) as u32,
        ));
    }
}

/// From a drive that is ready at every poll, reading `n` consecutive
/// sectors leaves exactly the record `range_trace`, nine accesses per
/// sector.
pub proof fn lemma_read_sectors_ready(m: MachineView, dst: int, first: int, n: int)
    requires
        m.disk_status.len() == 0,
        n >= 0,
    ensures
        m.read_sectors(dst, first, n).trace == m.trace + range_trace(dst, first, n),
        m.read_sectors(dst, first, n).disk_status.len() == 0,
        range_trace(dst, first, n).len() == 9 * n,
    decreases n,
{
    if n > 0 {
        lemma_read_sectors_ready(m, dst, first, n - 1);
        let prev = m.read_sectors(dst, first, n - 1);
        let ready = prev.waited(ATA_STATUS);
        let poll = seq![BusEvent::In { port: ATA_STATUS, value: 0x40 }];
        assert(ready.trace =~= prev.trace + poll);
        assert(ready.disk_status =~= Seq::<u8>::empty());
        assert(m.read_sectors(dst, first, n).trace =~= m.trace + range_trace(dst, first, n));
        assert(m.read_sectors(dst, first, n).disk_status =~= Seq::<u8>::empty());
    } else {
        assert(m.trace + range_trace(dst, first, n) =~= m.trace);
    }
}

/// The sectors read for a byte range hold that range at the requested
/// address: after the read, the `bytes_count` bytes at `phys_addr` are the
/// bytes of the disk at `file_offset`.
pub proof fn lemma_read_range_delivers(
    m: MachineView,
    phys_addr: u32,
    bytes_count: u32,
    file_offset: u32,
)
    requires
        m.wf(),
        m.range_fits(phys_addr, bytes_count, file_offset),
    ensures
        phys_addr + bytes_count <= m.memory.len(),
        file_offset + bytes_count <= m.disk.len(),
        m.read_range(phys_addr, bytes_count, file_offset).memory.len() == m.memory.len(),
        m.read_range(phys_addr, bytes_count, file_offset).disk == m.disk,
        m.read_range(phys_addr, bytes_count, file_offset).memory.subrange(
            phys_addr as int,
            phys_addr + bytes_count,
        ) == m.disk.subrange(file_offset as int, file_offset + bytes_count),
{
    lemma_read_sectors_effect(
        m,
        aligned_dest(phys_addr, file_offset),
        first_sector(file_offset),
        sector_span(bytes_count, file_offset),
    );
    let after = m.read_range(phys_addr, bytes_count, file_offset).memory;
    assert(after.subrange(phys_addr as int, phys_addr + bytes_count) =~= m.disk.subrange(
        file_offset as int,
        file_offset + bytes_count,
    ));
}

} // verus!
