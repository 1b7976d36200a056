use xv6_boot::boot::{
    apply, boot_gdt, enable_a20, finish, seg_descriptor, start, BootAction, BootCpu, BootState,
};
use xv6_boot::elf::{
    read_u16_le, read_u32_le, ElfHeader, ProgramHeader, ELF_MAGIC, ELF_PROG_LOAD,
};
use xv6_boot::image::create_image;
use xv6_boot::loader::{bootmain, load_segment, range_fits, segment_fits, try_bootmain};
use xv6_boot::machine::{Hardware, Machine, BusEvent};
use xv6_boot::outcome::{HaltReason, Outcome};

struct Segment {
    kind: u32,
    offset: u32,
    paddr: u32,
    file_size: u32,
    mem_size: u32,
}

fn put32(bytes: &mut Vec<u8>, at: usize, value: u32) {
    bytes[at..at + 4].copy_from_slice(&value.to_le_bytes());
}

fn put16(bytes: &mut Vec<u8>, at: usize, value: u16) {
    bytes[at..at + 2].copy_from_slice(&value.to_le_bytes());
}

fn payload_byte(i: usize) -> u8 {
    ((i * 11 + 5) % 250 + 1) as u8
}

/// A kernel image: header, segment table at offset 52, and file bytes.
fn kernel_image(magic: u32, entry: u32, segments: &[Segment], len: usize) -> Vec<u8> {
    let mut img: Vec<u8> = (0..len).map(payload_byte).collect();
    for b in img.iter_mut().take(52 + 32 * segments.len()) {
        *b = 0;
    }
    put32(&mut img, 0, magic);
    put16(&mut img, 16, 2);
    put16(&mut img, 18, 3);
    put32(&mut img, 20, 1);
    put32(&mut img, 24, entry);
    put32(&mut img, 28, 52);
    put16(&mut img, 40, 52);
    put16(&mut img, 42, 32);
    put16(&mut img, 44, segments.len() as u16);
    for (n, s) in segments.iter().enumerate() {
        let at = 52 + 32 * n;
        put32(&mut img, at, s.kind);
        put32(&mut img, at + 4, s.offset);
        put32(&mut img, at + 8, s.paddr.wrapping_add(0x8000_0000));
        put32(&mut img, at + 12, s.paddr);
        put32(&mut img, at + 16, s.file_size);
        put32(&mut img, at + 20, s.mem_size);
        put32(&mut img, at + 24, 7);
        put32(&mut img, at + 28, 0x1000);
    }
    img
}

/// The disk: a boot sector, the kernel image, zero padding to whole sectors.
fn disk_with(kernel: &[u8]) -> Vec<u8> {
    let mut disk = create_image(vec![0xFA, 0x31, 0xC0], kernel).unwrap();
    while disk.len() % 512 != 0 || disk.len() < 512 + 4096 {
        disk.push(0);
    }
    disk
}

fn dirty_machine(memory_size: u32, disk: Vec<u8>) -> Machine {
    let mut m = Machine::new(memory_size, disk);
    for b in m.memory.iter_mut() {
        *b = 0xAA;
    }
    m
}

fn head_events() -> Vec<BusEvent> {
    let mut events = Vec::new();
    for i in 0..8u32 {
        events.push(BusEvent::In { port: 0x1F7, value: 0x40 });
        events.push(BusEvent::Out { port: 0x1F2, value: 1 });
        events.push(BusEvent::Out { port: 0x1F3, value: (1 + i) as u8 });
        events.push(BusEvent::Out { port: 0x1F4, value: 0 });
        events.push(BusEvent::Out { port: 0x1F5, value: 0 });
        events.push(BusEvent::Out { port: 0x1F6, value: 0xE0 });
        events.push(BusEvent::Out { port: 0x1F7, value: 0x20 });
        events.push(BusEvent::InsL { port: 0x1F0, addr: 0x10000 + 512 * i, count: 128 });
        events.push(BusEvent::In { port: 0x1F7, value: 0x40 });
    }
    events
}

#[test]
fn single_segment_is_copied_and_its_tail_zeroed() {
    let seg = Segment { kind: 1, offset: 0x1000, paddr: 0x10_0000, file_size: 700, mem_size: 1000 };
    let kernel = kernel_image(ELF_MAGIC, 0x10_000C, &[seg], 0x1000 + 700);
    let mut m = dirty_machine(0x11_0000, disk_with(&kernel));
    let entry = bootmain(&mut m);
    assert_eq!(entry, Ok(0x10_000C));
    assert_eq!(&m.memory[0x10_0000..0x10_0000 + 700], &kernel[0x1000..0x1000 + 700]);
    assert!(m.memory[0x10_0000 + 700..0x10_0000 + 1000].iter().all(|b| *b == 0));
    assert_eq!(&m.memory[0x10000..0x11000], &kernel[..4096]);
    assert!(m.memory[..0x10000].iter().all(|b| *b == 0xAA));
    // the two enclosing sectors are written whole, nothing behind them
    assert!(m.memory[0x10_0000 + 1024..].iter().all(|b| *b == 0xAA));
    let reads = m.trace.iter().filter(|e| matches!(e, BusEvent::InsL { .. })).count();
    assert_eq!(reads, 8 + 2);
    // the zero fill comes last: 300 single stores in ascending order
    let stores: Vec<BusEvent> =
        (0..300u32).map(|k| BusEvent::Store { addr: 0x10_0000 + 700 + k, value: 0 }).collect();
    assert_eq!(&m.trace[m.trace.len() - 300..], &stores[..]);
    assert_eq!(m.trace.len(), 9 * 10 + 300);
}

#[test]
fn segment_at_an_unaligned_file_offset_lands_at_its_address() {
    let seg = Segment { kind: 1, offset: 0x1064, paddr: 0x2_0000, file_size: 600, mem_size: 600 };
    let kernel = kernel_image(ELF_MAGIC, 0x2_0000, &[seg], 0x1064 + 600);
    let mut m = dirty_machine(0x3_0000, disk_with(&kernel));
    assert_eq!(bootmain(&mut m), Ok(0x2_0000));
    assert_eq!(&m.memory[0x2_0000..0x2_0000 + 600], &kernel[0x1064..0x1064 + 600]);
    // the bytes of the first sector in front of the range are written too
    assert_eq!(&m.memory[0x2_0000 - 100..0x2_0000], &kernel[0x1000..0x1064]);
    assert_eq!(m.memory[0x2_0000 - 101], 0xAA);
    let last = m.trace.len() - 2;
    assert_eq!(m.trace[last], BusEvent::InsL { port: 0x1F0, addr: 0x2_0000 - 100 + 512, count: 128 });
    assert_eq!(m.trace[last - 5], BusEvent::Out { port: 0x1F3, value: 10 });
}

#[test]
fn bad_magic_copies_no_segment_and_yields_no_entry() {
    let seg = Segment { kind: 1, offset: 0x1000, paddr: 0x2_0000, file_size: 700, mem_size: 1000 };
    let kernel = kernel_image(0x464C_457E, 0x2_0000, &[seg], 0x1000 + 700);
    let mut m = dirty_machine(0x3_0000, disk_with(&kernel));
    assert_eq!(bootmain(&mut m), Err(HaltReason::BadMagic));
    assert_eq!(m.trace, head_events());
    assert_eq!(&m.memory[0x10000..0x11000], &kernel[..4096]);
    assert!(m.memory[..0x10000].iter().all(|b| *b == 0xAA));
    assert!(m.memory[0x11000..].iter().all(|b| *b == 0xAA));
}

#[test]
fn segments_that_are_not_loadable_are_skipped() {
    let segs = [
        Segment { kind: 4, offset: 0x1000, paddr: 0x2_0000, file_size: 512, mem_size: 512 },
        Segment { kind: 1, offset: 0x1200, paddr: 0x2_8000, file_size: 512, mem_size: 512 },
        Segment { kind: 0x6474_E551, offset: 0, paddr: 0x2_4000, file_size: 0, mem_size: 64 },
    ];
    let kernel = kernel_image(ELF_MAGIC, 0x2_8000, &segs, 0x1400);
    let mut m = dirty_machine(0x3_0000, disk_with(&kernel));
    assert_eq!(bootmain(&mut m), Ok(0x2_8000));
    assert_eq!(&m.memory[0x2_8000..0x2_8200], &kernel[0x1200..0x1400]);
    assert!(m.memory[0x2_0000..0x2_8000].iter().all(|b| *b == 0xAA));
    assert_eq!(m.trace.len(), 9 * (8 + 1));
}

#[test]
fn two_segments_are_loaded_in_table_order() {
    let segs = [
        Segment { kind: 1, offset: 0x1000, paddr: 0x2_0000, file_size: 1024, mem_size: 2048 },
        Segment { kind: 1, offset: 0x1400, paddr: 0x2_0400, file_size: 512, mem_size: 512 },
    ];
    let kernel = kernel_image(ELF_MAGIC, 0x2_0000, &segs, 0x1600);
    let mut m = dirty_machine(0x3_0000, disk_with(&kernel));
    assert_eq!(bootmain(&mut m), Ok(0x2_0000));
    assert_eq!(&m.memory[0x2_0000..0x2_0400], &kernel[0x1000..0x1400]);
    // the second segment overwrites the zeroed tail of the first
    assert_eq!(&m.memory[0x2_0400..0x2_0600], &kernel[0x1400..0x1600]);
    assert!(m.memory[0x2_0600..0x2_0800].iter().all(|b| *b == 0));
    assert_eq!(m.memory[0x2_0800], 0xAA);
}

#[test]
fn image_without_segments_only_yields_its_entry() {
    let kernel = kernel_image(ELF_MAGIC, 0xDEAD_BEEF, &[], 64);
    let mut m = dirty_machine(0x2_0000, disk_with(&kernel));
    assert_eq!(bootmain(&mut m), Ok(0xDEAD_BEEF));
    assert_eq!(m.trace, head_events());
}

#[test]
fn load_segment_places_one_descriptor() {
    let kernel: Vec<u8> = (0..2048).map(payload_byte).collect();
    let mut m = dirty_machine(0x1000, disk_with(&kernel));
    let ph = ProgramHeader {
        segment_type: ELF_PROG_LOAD,
        offset: 512,
        virtual_address: 0,
        physical_address: 0x400,
        file_size: 100,
        memory_size: 300,
        flags: 0,
        alignment: 0,
    };
    load_segment(&mut m, ph);
    assert_eq!(&m.memory[0x400..0x400 + 100], &kernel[512..612]);
    assert!(m.memory[0x400 + 100..0x400 + 300].iter().all(|b| *b == 0));
    assert_eq!(&m.memory[0x400 + 300..0x600], &kernel[512 + 300..1024]);
    assert_eq!(m.memory[0x3FF], 0xAA);
    assert_eq!(m.memory[0x600], 0xAA);
    let skipped = ProgramHeader { segment_type: 2, ..ph };
    let before = m.memory.clone();
    let events = m.trace.len();
    load_segment(&mut m, skipped);
    assert_eq!(m.memory, before);
    assert_eq!(m.trace.len(), events);
}

#[test]
fn header_fields_are_decoded_little_endian() {
    let seg = Segment { kind: 1, offset: 0x1000, paddr: 0x10_0000, file_size: 700, mem_size: 1000 };
    let mut kernel = kernel_image(ELF_MAGIC, 0x0010_000C, &[seg], 0x1000);
    for i in 0..12 {
        kernel[4 + i] = (i + 1) as u8;
    }
    put32(&mut kernel, 32, 0x1122_3344);
    put32(&mut kernel, 36, 0x5566_7788);
    put16(&mut kernel, 46, 40);
    put16(&mut kernel, 48, 9);
    put16(&mut kernel, 50, 8);
    let h = ElfHeader::from_bytes(&kernel).unwrap();
    assert_eq!(h.magic, 0x464C_457F);
    assert_eq!(h.ident, [1, 2, 3, 4, 5, 6, 7, 8, 9, 10, 11, 12]);
    assert_eq!(h.file_type, 2);
    assert_eq!(h.machine, 3);
    assert_eq!(h.version, 1);
    assert_eq!(h.entry, 0x0010_000C);
    assert_eq!(h.program_header_offset, 52);
    assert_eq!(h.section_header_offset, 0x1122_3344);
    assert_eq!(h.flags, 0x5566_7788);
    assert_eq!(h.header_size, 52);
    assert_eq!(h.program_header_entry_size, 32);
    assert_eq!(h.program_header_count, 1);
    assert_eq!(h.section_header_entry_size, 40);
    assert_eq!(h.section_header_count, 9);
    assert_eq!(h.section_name_string_index, 8);
    assert!(h.is_valid());
    assert!(ElfHeader::from_bytes(&kernel[..51]).is_none());
    assert!(ElfHeader::from_bytes(&kernel[..52]).is_some());

    let ph = ProgramHeader::from_bytes(&kernel[52..]).unwrap();
    assert_eq!(
        ph,
        ProgramHeader {
            segment_type: 1,
            offset: 0x1000,
            virtual_address: 0x8010_0000,
            physical_address: 0x10_0000,
            file_size: 700,
            memory_size: 1000,
            flags: 7,
            alignment: 0x1000,
        }
    );
    assert!(ph.is_loadable());
    assert_eq!(ProgramHeader::read_at(&kernel, 52), ph);
    assert!(ProgramHeader::from_bytes(&kernel[52..83]).is_none());
}

#[test]
fn magic_is_the_signature_bytes_read_little_endian() {
    let bytes = [0x7F, b'E', b'L', b'F', 0x34, 0x12];
    assert_eq!(read_u32_le(&bytes, 0), ELF_MAGIC);
    assert_eq!(read_u16_le(&bytes, 4), 0x1234);
    assert_eq!(read_u32_le(&bytes, 2), 0x1234_464C);
    let mut other = ElfHeader::read_at(&[0u8; 52], 0);
    assert!(!other.is_valid());
    other.magic = ELF_MAGIC;
    assert!(other.is_valid());
}

#[test]
fn boot_states_follow_the_sequence() {
    let order = [
        BootState::RealMode,
        BootState::A20Enabled,
        BootState::DescriptorTableLoaded,
        BootState::ProtectionEnabled,
        BootState::ProtectedMode32,
        BootState::SegmentsFlat,
        BootState::StackReady,
        BootState::Dispatched,
        BootState::KernelEntered,
    ];
    for pair in order.windows(2) {
        assert_eq!(pair[0].next(Outcome::Continue), pair[1]);
        assert!(!pair[0].is_terminal());
        assert_eq!(
            pair[0].next(Outcome::Halt(HaltReason::EntryReturned)),
            BootState::Halted(HaltReason::EntryReturned)
        );
    }
    assert!(BootState::KernelEntered.is_terminal());
    assert!(BootState::Halted(HaltReason::BadMagic).is_terminal());
    assert_eq!(BootState::KernelEntered.next(Outcome::Halt(HaltReason::Panic)), BootState::KernelEntered);
    assert_eq!(
        BootState::Halted(HaltReason::BadMagic).next(Outcome::Continue),
        BootState::Halted(HaltReason::BadMagic)
    );
}

#[test]
fn each_state_names_the_action_that_leaves_it() {
    assert_eq!(BootState::RealMode.action(), Some(BootAction::EnableA20));
    assert_eq!(BootState::A20Enabled.action(), Some(BootAction::LoadDescriptorTable));
    assert_eq!(BootState::DescriptorTableLoaded.action(), Some(BootAction::EnableProtection));
    assert_eq!(BootState::ProtectionEnabled.action(), Some(BootAction::FarJump));
    assert_eq!(BootState::ProtectedMode32.action(), Some(BootAction::ReloadSegments));
    assert_eq!(BootState::SegmentsFlat.action(), Some(BootAction::SetStack));
    assert_eq!(BootState::StackReady.action(), Some(BootAction::CallLoader));
    assert_eq!(BootState::Dispatched.action(), Some(BootAction::AwaitLoader));
    assert_eq!(BootState::KernelEntered.action(), None);
    assert_eq!(BootState::Halted(HaltReason::Panic).action(), None);
}

fn firmware_cpu() -> BootCpu {
    BootCpu {
        state: BootState::RealMode,
        interrupts: true,
        cs: 0xF000,
        ds: 0x40,
        es: 0x50,
        ss: 0x60,
        fs: 0x70,
        gs: 0x80,
        gdt_loaded: false,
        cr0: 0x10,
        esp: 0x1234,
        eip: 0x7C00,
    }
}

#[test]
fn boot_sequence_enters_an_accepted_kernel() {
    let seg = Segment { kind: 1, offset: 0x1000, paddr: 0x10_0000, file_size: 512, mem_size: 4096 };
    let kernel = kernel_image(ELF_MAGIC, 0x10_0020, &[seg], 0x1200);
    let mut m = dirty_machine(0x11_0000, disk_with(&kernel));
    let mut cpu = firmware_cpu();
    let state = start(&mut cpu, &mut m);
    assert_eq!(state, BootState::KernelEntered);
    assert_eq!(
        cpu,
        BootCpu {
            state: BootState::KernelEntered,
            interrupts: false,
            cs: 0x08,
            ds: 0x10,
            es: 0x10,
            ss: 0x10,
            fs: 0,
            gs: 0,
            gdt_loaded: true,
            cr0: 0x11,
            esp: 0x7C00,
            eip: 0x10_0020,
        }
    );
    assert_eq!(m.trace[0], BusEvent::In { port: 0x64, value: 0 });
    assert_eq!(m.trace[1], BusEvent::Out { port: 0x64, value: 0xD1 });
    assert_eq!(m.trace[2], BusEvent::In { port: 0x64, value: 0 });
    assert_eq!(m.trace[3], BusEvent::Out { port: 0x60, value: 0xDF });
    assert_eq!(m.keyboard.output_port, 0xDF);
    assert_eq!(&m.memory[0x10_0000..0x10_0200], &kernel[0x1000..0x1200]);
    assert!(m.memory[0x10_0200..0x10_1000].iter().all(|b| *b == 0));
}

#[test]
fn boot_sequence_halts_on_a_rejected_kernel() {
    let kernel = kernel_image(0, 0x10_0020, &[], 0x200);
    let mut m = dirty_machine(0x2_0000, disk_with(&kernel));
    let mut cpu = firmware_cpu();
    let state = start(&mut cpu, &mut m);
    assert_eq!(state, BootState::Halted(HaltReason::BadMagic));
    assert_eq!(cpu.state, BootState::Halted(HaltReason::BadMagic));
    assert_eq!(cpu.eip, 0x7C00);
    assert_eq!(cpu.esp, 0x7C00);
    assert_eq!(m.trace.len(), 4 + 8 * 9);
}

#[test]
fn a20_gate_is_opened_through_the_keyboard_controller() {
    let mut m = Machine::new(16, Vec::new());
    m.keyboard_status = vec![0x02, 0x03, 0x1C, 0xFF, 0x01];
    enable_a20(&mut m);
    assert_eq!(
        m.trace,
        vec![
            BusEvent::In { port: 0x64, value: 0x02 },
            BusEvent::In { port: 0x64, value: 0x03 },
            BusEvent::In { port: 0x64, value: 0x1C },
            BusEvent::Out { port: 0x64, value: 0xD1 },
            BusEvent::In { port: 0x64, value: 0xFF },
            BusEvent::In { port: 0x64, value: 0x01 },
            BusEvent::Out { port: 0x60, value: 0xDF },
        ]
    );
    assert_eq!(m.keyboard.output_port, 0xDF);
    assert!(!m.keyboard.armed);
    assert!(m.keyboard_status.is_empty());
}

#[test]
fn data_byte_without_the_command_does_not_reach_the_output_port() {
    let mut m = Machine::new(16, Vec::new());
    m.outb(0x60, 0xDF);
    assert_eq!(m.keyboard.output_port, 0);
    m.outb(0x64, 0xAD);
    m.outb(0x60, 0xDF);
    assert_eq!(m.keyboard.output_port, 0);
    assert_eq!(m.inb(0x64), 0);
    m.keyboard_status = vec![0x02];
    assert_eq!(m.inb(0x64), 0x02);
    assert_eq!(m.inb(0x64), 0);
}

#[test]
fn apply_changes_only_what_the_action_names() {
    let mut cpu = firmware_cpu();
    apply(&mut cpu, BootAction::EnableA20);
    let a20 = BootCpu {
        state: BootState::A20Enabled,
        interrupts: false,
        ds: 0,
        es: 0,
        ss: 0,
        ..firmware_cpu()
    };
    assert_eq!(cpu, a20);
    apply(&mut cpu, BootAction::LoadDescriptorTable);
    let table = BootCpu { state: BootState::DescriptorTableLoaded, gdt_loaded: true, ..a20 };
    assert_eq!(cpu, table);
    apply(&mut cpu, BootAction::EnableProtection);
    let protected = BootCpu { state: BootState::ProtectionEnabled, cr0: 0x11, ..table };
    assert_eq!(cpu, protected);
    apply(&mut cpu, BootAction::FarJump);
    let jumped = BootCpu { state: BootState::ProtectedMode32, cs: 0x08, ..protected };
    assert_eq!(cpu, jumped);
    apply(&mut cpu, BootAction::ReloadSegments);
    let flat = BootCpu {
        state: BootState::SegmentsFlat,
        ds: 0x10,
        es: 0x10,
        ss: 0x10,
        fs: 0,
        gs: 0,
        ..jumped
    };
    assert_eq!(cpu, flat);
    apply(&mut cpu, BootAction::SetStack);
    let stacked = BootCpu { state: BootState::StackReady, esp: 0x7C00, ..flat };
    assert_eq!(cpu, stacked);
    apply(&mut cpu, BootAction::CallLoader);
    let dispatched = BootCpu { state: BootState::Dispatched, ..stacked };
    assert_eq!(cpu, dispatched);

    let mut entered = dispatched;
    finish(&mut entered, Ok(0x100));
    assert_eq!(entered, BootCpu { state: BootState::KernelEntered, eip: 0x100, ..dispatched });
    let mut halted = dispatched;
    finish(&mut halted, Err(HaltReason::EntryReturned));
    assert_eq!(
        halted,
        BootCpu { state: BootState::Halted(HaltReason::EntryReturned), ..dispatched }
    );
}

#[test]
fn descriptor_table_holds_null_flat_code_and_flat_data() {
    let gdt = boot_gdt();
    assert_eq!(gdt.null, [0u8; 8]);
    assert_eq!(gdt.code, [0xFF, 0xFF, 0, 0, 0, 0x9A, 0xCF, 0]);
    assert_eq!(gdt.data, [0xFF, 0xFF, 0, 0, 0, 0x92, 0xCF, 0]);
    assert_eq!(
        seg_descriptor(0x2, 0x1234_5678, 0x9ABC_DEF0),
        [0xCD, 0xAB, 0x78, 0x56, 0x34, 0x92, 0xC9, 0x12]
    );
}

#[test]
fn panic_halts() {
    assert_eq!(xv6_boot::outcome::panic(), Outcome::Halt(HaltReason::Panic));
}

#[test]
fn machine_with_a_fitting_image_can_boot() {
    let seg = Segment { kind: 1, offset: 0x1000, paddr: 0x2_0000, file_size: 700, mem_size: 1000 };
    let kernel = kernel_image(ELF_MAGIC, 0x2_0000, &[seg], 0x1000 + 700);
    let mut m = dirty_machine(0x3_0000, disk_with(&kernel));
    assert!(m.can_boot());
    assert!(m.memory.iter().all(|b| *b == 0xAA));
    assert!(m.trace.is_empty());
    assert_eq!(try_bootmain(&mut m), Some(Ok(0x2_0000)));
    assert_eq!(&m.memory[0x2_0000..0x2_0000 + 700], &kernel[0x1000..0x1000 + 700]);
}

#[test]
fn rejected_image_can_boot_whatever_its_table_says() {
    let seg = Segment { kind: 1, offset: 0, paddr: 0xFFFF_0000, file_size: 9, mem_size: 9 };
    let kernel = kernel_image(0x1234_5678, 0, &[seg], 0x200);
    let mut m = dirty_machine(0x2_0000, disk_with(&kernel));
    assert!(m.can_boot());
    assert_eq!(try_bootmain(&mut m), Some(Err(HaltReason::BadMagic)));
}

#[test]
fn segment_outside_memory_cannot_boot() {
    let seg = Segment { kind: 1, offset: 0x1000, paddr: 0x2_FF00, file_size: 700, mem_size: 700 };
    let kernel = kernel_image(ELF_MAGIC, 0x2_0000, &[seg], 0x1000 + 700);
    let mut m = dirty_machine(0x3_0000, disk_with(&kernel));
    assert!(!m.can_boot());
    assert_eq!(try_bootmain(&mut m), None);
    assert!(m.memory.iter().all(|b| *b == 0xAA));
    assert!(m.trace.is_empty());
}

#[test]
fn zero_fill_outside_memory_cannot_boot() {
    let seg = Segment { kind: 1, offset: 0x1000, paddr: 0x2_0000, file_size: 512, mem_size: 0x2_0000 };
    let kernel = kernel_image(ELF_MAGIC, 0x2_0000, &[seg], 0x1200);
    let m = dirty_machine(0x3_0000, disk_with(&kernel));
    assert!(!m.can_boot());
}

#[test]
fn truncated_disk_cannot_boot() {
    let seg = Segment { kind: 1, offset: 0x1000, paddr: 0x2_0000, file_size: 4096, mem_size: 4096 };
    let kernel = kernel_image(ELF_MAGIC, 0x2_0000, &[seg], 0x1000 + 700);
    let m = dirty_machine(0x3_0000, disk_with(&kernel));
    assert!(!m.can_boot());
    let short = dirty_machine(0x3_0000, vec![0u8; 4607]);
    assert!(!short.can_boot());
}

#[test]
fn memory_without_the_scratch_area_cannot_boot() {
    let kernel = kernel_image(ELF_MAGIC, 0, &[], 64);
    assert!(!dirty_machine(0x1_0FFF, disk_with(&kernel)).can_boot());
    assert!(dirty_machine(0x1_1000, disk_with(&kernel)).can_boot());
}

#[test]
fn unaligned_segment_that_would_start_below_zero_cannot_boot() {
    let seg = Segment { kind: 1, offset: 0x1064, paddr: 50, file_size: 10, mem_size: 10 };
    let kernel = kernel_image(ELF_MAGIC, 0, &[seg], 0x1200);
    assert!(!dirty_machine(0x2_0000, disk_with(&kernel)).can_boot());
}

#[test]
fn fit_checks_follow_the_enclosing_sectors() {
    let m = Machine::new(0x1000, vec![0u8; 2048]);
    assert!(range_fits(&m, 0x100, 600, 100));
    assert!(range_fits(&m, 100, 600, 100));
    assert!(!range_fits(&m, 99, 600, 100));
    assert!(range_fits(&m, 0xC00, 1024, 1024));
    assert!(!range_fits(&m, 0xC01, 1024, 1024));
    assert!(!range_fits(&m, 0, 1025, 1024));
    assert!(range_fits(&m, 0xFFF, 0, 2048));
    let ph = ProgramHeader {
        segment_type: ELF_PROG_LOAD,
        offset: 0xFFFF_FE00,
        virtual_address: 0,
        physical_address: 0,
        file_size: 0,
        memory_size: 0,
        flags: 0,
        alignment: 0,
    };
    assert!(!segment_fits(&m, ph));
    assert!(segment_fits(&m, ProgramHeader { segment_type: 0, ..ph }));
    assert!(segment_fits(&m, ProgramHeader { offset: 512, file_size: 512, memory_size: 0x1000, ..ph }));
    assert!(!segment_fits(&m, ProgramHeader { offset: 512, file_size: 512, memory_size: 0x1001, ..ph }));
}
