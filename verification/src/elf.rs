//! Layout of a 32-bit little-endian executable image: the 52-byte header and
//! the 32-byte segment descriptors that follow it.

use vstd::prelude::*;

verus! {

/// Magic number identifying an executable image: the bytes `0x7F 'E' 'L' 'F'`
/// read as a little-endian 32-bit value.
pub const ELF_MAGIC: u32 = 0x464C457F;

/// Size in bytes of the executable header.
pub const ELF_HEADER_SIZE: usize = 52;

/// Size in bytes of one segment descriptor.
pub const PROGRAM_HEADER_SIZE: usize = 32;

/// Segment type of a loadable segment.
pub const ELF_PROG_LOAD: u32 = 1;

/// Segment permission flag: executable.
pub const ELF_PROG_FLAG_EXEC: u32 = 1;

/// Segment permission flag: writable.
pub const ELF_PROG_FLAG_WRITE: u32 = 2;

/// Segment permission flag: readable.
pub const ELF_PROG_FLAG_READ: u32 = 4;

/// The 16-bit little-endian value stored in `bytes` at `at`.
pub open spec fn le16(bytes: Seq<u8>, at: int) -> int {
    bytes[at] + 256 * bytes[at + 1]
}

/// The 32-bit little-endian value stored in `bytes` at `at`.
pub open spec fn le32(bytes: Seq<u8>, at: int) -> int {
    bytes[at] + 256 * bytes[at + 1] + 65536 * bytes[at + 2] + 16777216 * bytes[at + 3]
}

/// Reads the 16-bit little-endian value at `at`.
pub fn read_u16_le(bytes: &[u8], at: usize) -> (value: u16)
    requires
        at + 2 <= bytes.len(),
    ensures
        value == le16(bytes@, at as int),
{
    let b0: u16 = bytes[at] as u16;
    let b1: u16 = bytes[at + 1] as u16;
    b0 + 256 * b1
}

/// Reads the 32-bit little-endian value at `at`.
pub fn read_u32_le(bytes: &[u8], at: usize) -> (value: u32)
    requires
        at + 4 <= bytes.len(),
    ensures
        value == le32(bytes@, at as int),
{
    let b0: u32 = bytes[at] as u32;
    let b1: u32 = bytes[at + 1] as u32;
    let b2: u32 = bytes[at + 2] as u32;
    let b3: u32 = bytes[at + 3] as u32;
    b0 + 256 * b1 + 65536 * b2 + 16777216 * b3
}

/// Executable header; appears at the beginning of every image.
#[derive(Debug, Clone, Copy)]
pub struct ElfHeader {
    /// Magic number (must be [`ELF_MAGIC`]).
    pub magic: u32,
    /// Identification bytes (class, endianness, version, OS ABI, padding).
    pub ident: [u8; 12],
    /// Object file type (2 = executable).
    pub file_type: u16,
    /// Target machine architecture (3 = x86).
    pub machine: u16,
    /// Format version (always 1).
    pub version: u32,
    /// Virtual address of the entry point.
    pub entry: u32,
    /// Offset in bytes to the segment table.
    pub program_header_offset: u32,
    /// Offset in bytes to the section table.
    pub section_header_offset: u32,
    /// Processor-specific flags.
    pub flags: u32,
    /// Size of this header in bytes.
    pub header_size: u16,
    /// Size of each entry of the segment table.
    pub program_header_entry_size: u16,
    /// Number of entries of the segment table.
    pub program_header_count: u16,
    /// Size of each entry of the section table.
    pub section_header_entry_size: u16,
    /// Number of entries of the section table.
    pub section_header_count: u16,
    /// Index of the section holding the section names.
    pub section_name_string_index: u16,
}

impl ElfHeader {
    /// Whether this header is the decoding of the 52 bytes of `bytes` that
    /// start at `at`.
    pub open spec fn decodes(&self, bytes: Seq<u8>, at: int) -> bool {
        &&& self.magic == le32(bytes, at)
        &&& self.ident@ == bytes.subrange(at + 4, at + 16)
        &&& self.file_type == le16(bytes, at + 16)
        &&& self.machine == le16(bytes, at + 18)
        &&& self.version == le32(bytes, at + 20)
        &&& self.entry == le32(bytes, at + 24)
        &&& self.program_header_offset == le32(bytes, at + 28)
        &&& self.section_header_offset == le32(bytes, at + 32)
        &&& self.flags == le32(bytes, at + 36)
        &&& self.header_size == le16(bytes, at + 40)
        &&& self.program_header_entry_size == le16(bytes, at + 42)
        &&& self.program_header_count == le16(bytes, at + 44)
        &&& self.section_header_entry_size == le16(bytes, at + 46)
        &&& self.section_header_count == le16(bytes, at + 48)
        &&& self.section_name_string_index == le16(bytes, at + 50)
    }

    /// Whether the magic field carries the image signature.
    pub open spec fn has_magic(&self) -> bool {
        self.magic == ELF_MAGIC
    }

    /// Decodes the header stored in `bytes` at `at`.
    pub fn read_at(bytes: &[u8], at: usize) -> (header: ElfHeader)
        requires
            at + 52 <= bytes.len(),
        ensures
            header.decodes(bytes@, at as int),
    {
        let mut ident: [u8; 12] = [0u8; 12];
        let mut i: usize = 0;
        while i < 12
            invariant
                i <= 12,
                at + 52 <= bytes.len(),
                forall|k: int| 0 <= k < i ==> ident@[k] == bytes@[at + 4 + k],
            decreases 12 - i,
        {
            ident[i] = bytes[at + 4 + i];
            i += 1;
        }
        assert(ident@ =~= bytes@.subrange(at + 4, at + 16));
        ElfHeader {
            magic: read_u32_le(bytes, at),
            ident,
            file_type: read_u16_le(bytes, at + 16),
            machine: read_u16_le(bytes, at + 18),
            version: read_u32_le(bytes, at + 20),
            entry: read_u32_le(bytes, at + 24),
            program_header_offset: read_u32_le(bytes, at + 28),
            section_header_offset: read_u32_le(bytes, at + 32),
            flags: read_u32_le(bytes, at + 36),
            header_size: read_u16_le(bytes, at + 40),
            program_header_entry_size: read_u16_le(bytes, at + 42),
            program_header_count: read_u16_le(bytes, at + 44),
            section_header_entry_size: read_u16_le(bytes, at + 46),
            section_header_count: read_u16_le(bytes, at + 48),
            section_name_string_index: read_u16_le(bytes, at + 50),
        }
    }

    /// Decodes a header from the start of `bytes`; `None` exactly when fewer
    /// than 52 bytes are given.
    pub fn from_bytes(bytes: &[u8]) -> (header: Option<ElfHeader>)
        ensures
            bytes.len() < 52 <==> header is None,
            header matches Some(h) ==> h.decodes(bytes@, 0),
    {
        if bytes.len() < 52 {
            None
        } else {
            Some(ElfHeader::read_at(bytes, 0))
        }
    }

    /// Whether the image is accepted: its magic field equals [`ELF_MAGIC`].
    pub fn is_valid(&self) -> (valid: bool)
        ensures
            valid == self.has_magic(),
    {
        self.magic == ELF_MAGIC
    }
}

/// Segment descriptor; describes a single segment to be placed in memory.
#[derive(Debug, Clone, Copy, PartialEq, Eq, Structural)]
pub struct ProgramHeader {
    /// Segment type (1 = loadable).
    pub segment_type: u32,
    /// Offset of the segment in the file.
    pub offset: u32,
    /// Virtual address of the segment.
    pub virtual_address: u32,
    /// Physical address at which the loader places the segment.
    pub physical_address: u32,
    /// Size of the segment in the file.
    pub file_size: u32,
    /// Size of the segment in memory (may exceed `file_size`).
    pub memory_size: u32,
    /// Segment flags (readable, writable, executable).
    pub flags: u32,
    /// Required alignment of the segment in memory and in the file.
    pub alignment: u32,
}

impl ProgramHeader {
    /// The descriptor encoded by the 32 bytes of `bytes` that start at `at`.
    pub open spec fn decode(bytes: Seq<u8>, at: int) -> ProgramHeader {
        ProgramHeader {
            segment_type: le32(bytes, at) as u32,
            offset: le32(bytes, at + 4) as u32,
            virtual_address: le32(bytes, at + 8) as u32,
            physical_address: le32(bytes, at + 12) as u32,
            file_size: le32(bytes, at + 16) as u32,
            memory_size: le32(bytes, at + 20) as u32,
            flags: le32(bytes, at + 24) as u32,
            alignment: le32(bytes, at + 28) as u32,
        }
    }

    /// Whether the loader honours this segment.
    pub open spec fn loadable(&self) -> bool {
        self.segment_type == ELF_PROG_LOAD
    }

    /// Decodes the descriptor stored in `bytes` at `at`.
    pub fn read_at(bytes: &[u8], at: usize) -> (ph: ProgramHeader)
        requires
            at + 32 <= bytes.len(),
        ensures
            ph == ProgramHeader::decode(bytes@, at as int),
    {
        ProgramHeader {
            segment_type: read_u32_le(bytes, at),
            offset: read_u32_le(bytes, at + 4),
            virtual_address: read_u32_le(bytes, at + 8),
            physical_address: read_u32_le(bytes, at + 12),
            file_size: read_u32_le(bytes, at + 16),
            memory_size: read_u32_le(bytes, at + 20),
            flags: read_u32_le(bytes, at + 24),
            alignment: read_u32_le(bytes, at + 28),
        }
    }

    /// Decodes a descriptor from the start of `bytes`; `None` exactly when
    /// fewer than 32 bytes are given.
    pub fn from_bytes(bytes: &[u8]) -> (ph: Option<ProgramHeader>)
        ensures
            bytes.len() < 32 <==> ph is None,
            ph matches Some(p) ==> p == ProgramHeader::decode(bytes@, 0),
    {
        if bytes.len() < 32 {
            None
        } else {
            Some(ProgramHeader::read_at(bytes, 0))
        }
    }

    /// Whether the segment is of the loadable type.
    pub fn is_loadable(&self) -> (loadable: bool)
        ensures
            loadable == self.loadable(),
    {
        self.segment_type == ELF_PROG_LOAD
    }
}

} // verus!
