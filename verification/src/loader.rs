//! The executable loader: stages the head of the kernel image, validates it,
//! places every loadable segment at its physical address and yields the
//! entry address.

use vstd::prelude::*;
use crate::consts::{KERNEL_DISK_OFFSET, SCRATCH_ADDR, SCRATCH_SIZE};
use crate::disk::{
    aligned_dest, first_sector, lemma_read_range_delivers, lemma_read_sectors_effect,
    lemma_read_sectors_ignores_devices, lemma_read_sectors_ready, range_trace, read_segment,
    sector_span,
};
use crate::elf::{le16, le32, ElfHeader, ProgramHeader, ELF_MAGIC};
use crate::machine::{fill, overlay, BusEvent, Hardware, Machine, MachineView};
use crate::outcome::HaltReason;

verus! {

impl MachineView {
    /// The state after `count` single-byte stores of `data`, to the
    /// addresses `dst`, `dst + 1`, ... in ascending order.
    pub open spec fn filled(self, dst: u32, data: u8, count: u32) -> MachineView {
        MachineView {
            memory: overlay(self.memory, dst as int, fill(data, count as int)),
            trace: self.trace + store_events(dst, data, count as int),
            ..self
        }
    }

    /// The state after the first 4 KiB of the kernel image were read to the
    /// scratch address.
    pub open spec fn stage(self) -> MachineView {
        self.read_range(SCRATCH_ADDR, SCRATCH_SIZE, KERNEL_DISK_OFFSET)
    }

    /// The magic field of the staged header.
    pub open spec fn image_magic(self) -> int {
        le32(self.memory, SCRATCH_ADDR as int)
    }

    /// The entry address recorded in the staged header.
    pub open spec fn image_entry(self) -> int {
        le32(self.memory, SCRATCH_ADDR + 24)
    }

    /// The physical address of the staged segment table.
    pub open spec fn image_table(self) -> int {
        SCRATCH_ADDR + le32(self.memory, SCRATCH_ADDR + 28)
    }

    /// The number of entries of the staged segment table.
    pub open spec fn image_count(self) -> int {
        le16(self.memory, SCRATCH_ADDR + 44)
    }

    /// The state after one segment descriptor was processed: a loadable
    /// segment has its file bytes copied to its physical address and the
    /// rest of its memory size zeroed; any other descriptor is skipped.
    pub open spec fn place(self, ph: ProgramHeader) -> MachineView {
        if !ph.loadable() {
            self
        } else {
            let copied = self.read_range(ph.physical_address, ph.file_size, disk_offset(ph));
            if ph.memory_size > ph.file_size {
                copied.filled(
                    (ph.physical_address + ph.file_size) as u32,
                    0,
                    (ph.memory_size - ph.file_size) as u32,
                )
            } else {
                copied
            }
        }
    }

    /// Whether one segment descriptor can be processed: the sectors of a
    /// loadable segment lie on the disk and its bytes lie in memory.
    pub open spec fn segment_fits(self, ph: ProgramHeader) -> bool {
        ph.loadable() ==> {
            &&& KERNEL_DISK_OFFSET + ph.offset <= u32::MAX
            &&& self.range_fits(ph.physical_address, ph.file_size, disk_offset(ph))
            &&& ph.memory_size > ph.file_size ==> ph.physical_address + ph.memory_size
                <= self.memory.len()
        }
    }

    /// The state after the descriptors `i..count` of the segment table at
    /// `table` were processed in order, each one decoded from memory as it
    /// is at that moment.
    pub open spec fn place_all(self, table: int, i: int, count: int) -> MachineView
        decreases count - i,
    {
        if i >= count {
            self
        } else {
            self.place(ProgramHeader::decode(self.memory, table + 32 * i)).place_all(
                table,
                i + 1,
                count,
            )
        }
    }

    /// Whether the descriptors `i..count` lie in memory and each can be
    /// processed when its turn comes.
    pub open spec fn all_fit(self, table: int, i: int, count: int) -> bool
        decreases count - i,
    {
        i >= count || {
            &&& table + 32 * i + 32 <= self.memory.len()
            &&& self.segment_fits(ProgramHeader::decode(self.memory, table + 32 * i))
            &&& self.place(ProgramHeader::decode(self.memory, table + 32 * i)).all_fit(
                table,
                i + 1,
                count,
            )
        }
    }

    /// Whether the staged header carries the executable signature.
    pub open spec fn image_accepted(self) -> bool {
        self.stage().image_magic() == ELF_MAGIC
    }

    /// Whether the machine can run the loader: the scratch area lies in
    /// memory, the head of the image lies on the disk, and, if the image is
    /// accepted, every segment can be processed.
    pub open spec fn bootable(self) -> bool {
        &&& SCRATCH_ADDR + SCRATCH_SIZE <= self.memory.len() <= 0xFFFF_FFFF
        &&& KERNEL_DISK_OFFSET + SCRATCH_SIZE <= self.disk.len()
        &&& self.image_accepted() ==> self.stage().all_fit(
            self.stage().image_table(),
            0,
            self.stage().image_count(),
        )
    }

    /// The state the loader leaves behind: the staged image head and, if the
    /// image is accepted, every loadable segment in place.
    pub open spec fn loaded(self) -> MachineView {
        if self.image_accepted() {
            self.stage().place_all(self.stage().image_table(), 0, self.stage().image_count())
        } else {
            self.stage()
        }
    }
}

/// The record of `count` single-byte stores of `data`, one to each of the
/// addresses `dst`, `dst + 1`, ..., `dst + count - 1`, in this order.
pub open spec fn store_events(dst: u32, data: u8, count: int) -> Seq<BusEvent> {
    Seq::new(count as nat, |k: int| BusEvent::Store { addr: (dst + k) as u32, value: data })
}

/// Byte offset on disk of the file bytes of a segment.
pub open spec fn disk_offset(ph: ProgramHeader) -> u32 {
    (KERNEL_DISK_OFFSET + ph.offset) as u32
}

/// An accepted image with a single loadable segment of file size F and
/// memory size M >= F at physical address P is loaded so that the bytes
/// `[P, P + F)` of memory are the file bytes of the segment and the bytes
/// `[P + F, P + M)` are all zero.
pub proof fn lemma_single_segment_loaded(m: MachineView, ph: ProgramHeader)
    requires
        m.bootable(),
        m.image_accepted(),
        m.stage().image_count() == 1,
        ph == ProgramHeader::decode(m.stage().memory, m.stage().image_table()),
        ph.loadable(),
        ph.memory_size >= ph.file_size,
    ensures
        ph.physical_address + ph.memory_size <= m.loaded().memory.len(),
        KERNEL_DISK_OFFSET + ph.offset + ph.file_size <= m.disk.len(),
        m.loaded().memory.subrange(
            ph.physical_address as int,
            ph.physical_address + ph.file_size,
        ) == m.disk.subrange(
            KERNEL_DISK_OFFSET + ph.offset,
            KERNEL_DISK_OFFSET + ph.offset + ph.file_size,
        ),
        m.loaded().memory.subrange(
            ph.physical_address + ph.file_size,
            ph.physical_address + ph.memory_size,
        ) == fill(0, ph.memory_size - ph.file_size),
{
    let s = m.stage();
    let table = s.image_table();
    lemma_read_range_delivers(m, SCRATCH_ADDR, SCRATCH_SIZE, KERNEL_DISK_OFFSET);
    assert(s.all_fit(table, 0, 1));
    assert(s.segment_fits(ph));
    assert(s.place(ph).place_all(table, 1, 1) == s.place(ph));
    assert(s.place_all(table, 0, 1) == s.place(ph));
    assert(m.loaded() == s.place(ph));
    lemma_read_range_delivers(s, ph.physical_address, ph.file_size, disk_offset(ph));
    let copied = s.read_range(ph.physical_address, ph.file_size, disk_offset(ph));
    assert(s.disk == m.disk);
    assert(m.loaded().memory.subrange(
        ph.physical_address as int,
        ph.physical_address + ph.file_size,
    ) =~= copied.memory.subrange(ph.physical_address as int, ph.physical_address + ph.file_size));
    assert(m.loaded().memory.subrange(
        ph.physical_address + ph.file_size,
        ph.physical_address + ph.memory_size,
    ) =~= fill(0, ph.memory_size - ph.file_size));
}

/// An image whose magic field is not the executable signature is left
/// alone: the loader reads the eight sectors of the image head to the
/// scratch address and does nothing else. From a drive that is ready at
/// every poll this leaves the record of eight sector reads and no store.
pub proof fn lemma_rejected_image_untouched(m: MachineView)
    requires
        !m.image_accepted(),
        KERNEL_DISK_OFFSET + SCRATCH_SIZE <= m.disk.len(),
    ensures
        m.loaded() == m.read_sectors(SCRATCH_ADDR as int, 1, 8),
        m.loaded().memory == overlay(
            m.memory,
            SCRATCH_ADDR as int,
            m.disk.subrange(KERNEL_DISK_OFFSET as int, KERNEL_DISK_OFFSET + SCRATCH_SIZE),
        ),
        m.loaded().disk == m.disk,
        m.disk_status.len() == 0 ==> m.loaded().trace == m.trace + range_trace(
            SCRATCH_ADDR as int,
            1,
            8,
        ),
{
    lemma_read_sectors_effect(m, SCRATCH_ADDR as int, 1, 8);
    if m.disk_status.len() == 0 {
        lemma_read_sectors_ready(m, SCRATCH_ADDR as int, 1, 8);
    }
}

/// Whether the segments can be processed, and what memory holds afterwards,
/// depends on memory and disk alone, not on the state of the controllers or
/// on the port accesses issued before.
pub proof fn lemma_segments_ignore_devices(
    a: MachineView,
    b: MachineView,
    table: int,
    i: int,
    count: int,
)
    requires
        a.memory == b.memory,
        a.disk == b.disk,
    ensures
        a.all_fit(table, i, count) == b.all_fit(table, i, count),
        a.place_all(table, i, count).memory == b.place_all(table, i, count).memory,
        a.place_all(table, i, count).disk == b.place_all(table, i, count).disk,
    decreases count - i,
{
    if i < count {
        let ph = ProgramHeader::decode(a.memory, table + 32 * i);
        lemma_read_sectors_ignores_devices(
            a,
            b,
            aligned_dest(ph.physical_address, disk_offset(ph)),
            first_sector(disk_offset(ph)),
            sector_span(ph.file_size, disk_offset(ph)),
        );
        lemma_segments_ignore_devices(a.place(ph), b.place(ph), table, i + 1, count);
    }
}

/// Whether a machine can run the loader, whether its image is accepted, and
/// what the loader leaves in memory depend on memory and disk alone.
pub proof fn lemma_loader_ignores_devices(a: MachineView, b: MachineView)
    requires
        a.memory == b.memory,
        a.disk == b.disk,
    ensures
        a.bootable() == b.bootable(),
        a.image_accepted() == b.image_accepted(),
        a.stage().image_entry() == b.stage().image_entry(),
        a.loaded().memory == b.loaded().memory,
        a.loaded().disk == b.loaded().disk,
{
    lemma_read_sectors_ignores_devices(
        a,
        b,
        aligned_dest(SCRATCH_ADDR, KERNEL_DISK_OFFSET),
        first_sector(KERNEL_DISK_OFFSET),
        sector_span(SCRATCH_SIZE, KERNEL_DISK_OFFSET),
    );
    lemma_segments_ignore_devices(
        a.stage(),
        b.stage(),
        a.stage().image_table(),
        0,
        a.stage().image_count(),
    );
}

/// Whether the sectors that enclose a byte range lie on the disk of the
/// machine and their destination lies in its memory.
pub fn range_fits(machine: &Machine, phys_addr: u32, bytes_count: u32, file_offset: u32) -> (fits:
    bool)
    ensures
        fits == machine@.range_fits(phys_addr, bytes_count, file_offset),
{
    let offset_into_sector: u32 = file_offset % 512;
    if phys_addr < offset_into_sector {
        return false;
    }
    let dest: u64 = (phys_addr - offset_into_sector) as u64;
    let start_sector: u64 = (file_offset / 512) as u64;
    let end_offset: u64 = file_offset as u64 + bytes_count as u64;
    let total_sectors: u64 = (end_offset + 511) / 512 - start_sector;
    dest + 512 * total_sectors <= machine.memory.len() as u64 && 512 * (start_sector
        + total_sectors) <= machine.disk.len() as u64
}

/// Whether one segment descriptor can be processed on the machine.
pub fn segment_fits(machine: &Machine, segment: ProgramHeader) -> (fits: bool)
    ensures
        fits == machine@.segment_fits(segment),
{
    if !segment.is_loadable() {
        return true;
    }
    if segment.offset > 0xFFFF_FFFF - KERNEL_DISK_OFFSET {
        return false;
    }
    if !range_fits(
        machine,
        segment.physical_address,
        segment.file_size,
        KERNEL_DISK_OFFSET + segment.offset,
    ) {
        return false;
    }
    segment.memory_size <= segment.file_size || segment.physical_address as u64
        + segment.memory_size as u64 <= machine.memory.len() as u64
}

impl Machine {
    /// Whether the loader can run on this machine: tries it out on a copy
    /// of memory and disk.
    pub fn can_boot(&self) -> (ok: bool)
        ensures
            ok == self@.bootable(),
    {
        if self.memory.len() < 0x11000 || self.memory.len() > 0xFFFF_FFFF || self.disk.len()
            < 4608 {
            return false;
        }
        let mut probe = Machine {
            memory: self.memory.clone(),
            disk: self.disk.clone(),
            device: self.device,
            keyboard: self.keyboard,
            disk_status: Vec::new(),
            keyboard_status: Vec::new(),
            trace: Vec::new(),
        };
        assert(probe.memory@ =~= self.memory@);
        assert(probe.disk@ =~= self.disk@);
        proof {
            lemma_loader_ignores_devices(probe@, self@);
        }
        let ghost fresh = probe@;
        read_segment(&mut probe, SCRATCH_ADDR, SCRATCH_SIZE, KERNEL_DISK_OFFSET);
        let header = ElfHeader::read_at(probe.memory.as_slice(), 0x10000);
        if !header.is_valid() {
            return true;
        }
        let table: u64 = SCRATCH_ADDR as u64 + header.program_header_offset as u64;
        let header_count: u16 = header.program_header_count;
        let mut n: u16 = 0;
        while n < header_count
            invariant
                n <= header_count,
                probe@.wf(),
                table < 0x2_0000_0000,
                fresh.bootable() == self@.bootable(),
                probe@.all_fit(table as int, n as int, header_count as int) == fresh.bootable(),
            decreases header_count - n,
        {
            let at: u64 = table + 32 * (n as u64);
            if at + 32 > probe.memory.len() as u64 {
                return false;
            }
            let segment = ProgramHeader::read_at(probe.memory.as_slice(), at as usize);
            if !segment_fits(&probe, segment) {
                return false;
            }
            load_segment(&mut probe, segment);
            n += 1;
        }
        true
    }
}

/// Fills `count` bytes of memory, starting at `dst`, with `data`: `count`
/// single-byte stores in ascending order of address, each address once.
/// With `count == 0` nothing is stored, whatever `dst` is.
pub fn stosb<H: Hardware>(hw: &mut H, dst: u32, data: u8, count: u32)
    requires
        count > 0 ==> old(hw).state().wf() && dst + count <= old(hw).state().memory.len(),
    ensures
        final(hw).state() == old(hw).state().filled(dst, data, count),
{
    let ghost before = hw.state();
    let mut k: u32 = 0;
    proof {
        assert(before.memory =~= overlay(before.memory, dst as int, fill(data, 0)));
        assert(before.trace =~= before.trace + store_events(dst, data, 0));
    }
    while k < count
        invariant
            k <= count,
            before == old(hw).state(),
            count > 0 ==> dst + count <= before.memory.len() <= 0xFFFF_FFFF,
            hw.state() == (MachineView {
                memory: overlay(before.memory, dst as int, fill(data, k as int)),
                trace: before.trace + store_events(dst, data, k as int),
                ..before
            }),
        decreases count - k,
    {
        hw.store(dst + k, data);
        k += 1;
        assert(hw.state().memory =~= overlay(before.memory, dst as int, fill(data, k as int)));
        assert(hw.state().trace =~= before.trace + store_events(dst, data, k as int));
    }
}

/// Copies `count` bytes of memory, starting at `addr`, into a buffer.
pub fn read_bytes<H: Hardware>(hw: &H, addr: u32, count: u32) -> (bytes: Vec<u8>)
    requires
        count > 0 ==> hw.state().wf() && addr + count <= hw.state().memory.len(),
    ensures
        count > 0 ==> bytes@ == hw.state().memory.subrange(addr as int, addr + count),
        count == 0 ==> bytes@ == Seq::<u8>::empty(),
{
    let mut bytes: Vec<u8> = Vec::new();
    let mut k: u32 = 0;
    while k < count
        invariant
            k <= count,
            count > 0 ==> addr + count <= hw.state().memory.len() <= 0xFFFF_FFFF,
            count > 0 ==> bytes@ == hw.state().memory.subrange(addr as int, addr + k),
            count == 0 ==> bytes@ == Seq::<u8>::empty(),
        decreases count - k,
    {
        bytes.push(hw.load(addr + k));
        k += 1;
        assert(bytes@ =~= hw.state().memory.subrange(addr as int, addr + k));
    }
    bytes
}

/// Processes one segment descriptor: copies the file bytes of a loadable
/// segment to its physical address and zeroes the rest of its memory size.
pub fn load_segment<H: Hardware>(hw: &mut H, segment: ProgramHeader)
    requires
        old(hw).state().wf(),
        old(hw).state().segment_fits(segment),
    ensures
        final(hw).state() == old(hw).state().place(segment),
        final(hw).state().memory.len() == old(hw).state().memory.len(),
        final(hw).state().disk == old(hw).state().disk,
{
    if segment.is_loadable() {
        let dest: u32 = segment.physical_address;
        let file_size: u32 = segment.file_size;
        let mem_size: u32 = segment.memory_size;
        read_segment(hw, dest, file_size, KERNEL_DISK_OFFSET + segment.offset);
        if mem_size > file_size {
            stosb(hw, dest + file_size, 0, mem_size - file_size);
        }
    }
}

/// Loads the kernel image from disk and yields the address to jump to.
///
/// Reads the first 4 KiB of the image to the scratch address. If the magic
/// field is not the executable signature nothing further happens and the
/// halt reason is returned. Otherwise every loadable segment is copied to
/// its physical address, the part of its memory size that the file does not
/// cover is zeroed, and the recorded entry address is returned.
pub fn bootmain<H: Hardware>(hw: &mut H) -> (entry: Result<u32, HaltReason>)
    requires
        old(hw).state().bootable(),
    ensures
        final(hw).state() == old(hw).state().loaded(),
        old(hw).state().image_accepted() ==> entry == Ok::<u32, HaltReason>(
            old(hw).state().stage().image_entry() as u32,
        ),
        !old(hw).state().image_accepted() ==> entry == Err::<u32, HaltReason>(
            HaltReason::BadMagic,
        ),
{
    read_segment(hw, SCRATCH_ADDR, SCRATCH_SIZE, KERNEL_DISK_OFFSET);

    let head = read_bytes(hw, SCRATCH_ADDR, 52);
    let header = ElfHeader::read_at(head.as_slice(), 0);
    if !header.is_valid() {
        return Err(HaltReason::BadMagic);
    }
    let table: u64 = SCRATCH_ADDR as u64 + header.program_header_offset as u64;
    let header_count: u16 = header.program_header_count;

    let mut n: u16 = 0;
    while n < header_count
        invariant
            n <= header_count,
            hw.state().wf(),
            hw.state().all_fit(table as int, n as int, header_count as int),
            hw.state().place_all(table as int, n as int, header_count as int) == old(
                hw,
            ).state().loaded(),
        decreases header_count - n,
    {
        let at: u64 = table + 32 * (n as u64);
        let raw = read_bytes(hw, at as u32, 32);
        let segment = ProgramHeader::read_at(raw.as_slice(), 0);
        assert(segment == ProgramHeader::decode(hw.state().memory, at as int));
        load_segment(hw, segment);
        n += 1;
    }
    Ok(header.entry)
}

/// Runs the loader where it can run: `None`, with the machine untouched,
/// exactly when the machine is not bootable; otherwise what [`bootmain`]
/// yields.
pub fn try_bootmain(machine: &mut Machine) -> (entry: Option<Result<u32, HaltReason>>)
    ensures
        !old(machine)@.bootable() ==> entry is None && final(machine)@ == old(machine)@,
        old(machine)@.bootable() ==> final(machine)@ == old(machine)@.loaded() && entry == Some(
            if old(machine)@.image_accepted() {
                Ok::<u32, HaltReason>(old(machine)@.stage().image_entry() as u32)
            } else {
                Err::<u32, HaltReason>(HaltReason::BadMagic)
            },
        ),
{
    if machine.can_boot() {
        Some(bootmain(machine))
    } else {
        None
    }
}

} // verus!
