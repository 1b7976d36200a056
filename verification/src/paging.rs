//! The kernel-entry paging bootstrap: the static page directory that maps
//! the first 4 MiB of physical memory both at address 0 and at the kernel's
//! virtual base, and the control-register sequence that turns paging on.

use vstd::prelude::*;

verus! {

/// Number of entries of a page directory.
pub const N_PD_ENTRIES: usize = 1024;

/// Page-directory entry flag: present.
pub const PTE_P: u32 = 0x001;

/// Page-directory entry flag: writable.
pub const PTE_W: u32 = 0x002;

/// Page-directory entry flag: the entry maps a 4 MiB page.
pub const PTE_PS: u32 = 0x080;

/// First virtual address of the kernel's higher-half mapping.
pub const KERNEL_BASE: u32 = 0x8000_0000;

/// Number of address bits below the page-directory index.
pub const PDX_SHIFT: u32 = 22;

/// Size in bytes of the kernel's boot stack.
pub const K_STACK_SIZE: u32 = 4096;

/// Control register 4: page-size extension (4 MiB pages).
pub const CR4_PSE: u32 = 0x10;

/// Control register 0: paging enable.
pub const CR0_PG: u32 = 0x8000_0000;

/// Control register 0: write protect.
pub const CR0_WP: u32 = 0x1_0000;

/// A physical address.
#[derive(Debug, Clone, Copy, PartialEq, Eq, Structural)]
pub struct PhysAddr(pub u32);

/// A virtual address.
#[derive(Debug, Clone, Copy, PartialEq, Eq, Structural)]
pub struct VirtAddr(pub u32);

/// The physical address behind a virtual address of the kernel's higher
/// half; `None` exactly when the address lies below the kernel's base.
pub fn virt_to_phys(addr: VirtAddr) -> (phys: Option<PhysAddr>)
    ensures
        addr.0 >= KERNEL_BASE ==> phys == Some(PhysAddr((addr.0 - KERNEL_BASE) as u32)),
        addr.0 < KERNEL_BASE ==> phys is None,
{
    if addr.0 >= KERNEL_BASE {
        Some(PhysAddr(addr.0 - KERNEL_BASE))
    } else {
        None
    }
}

/// Index of the page-directory entry that maps the kernel's virtual base.
pub open spec fn kernel_pde_index() -> int {
    KERNEL_BASE as int / 0x40_0000
}

/// The entry of the boot page directory at `index`: a present, writable
/// 4 MiB page on physical frame 0 at index 0 and at the kernel's index,
/// zero everywhere else.
pub open spec fn entry_pde(index: int) -> u32 {
    if index == 0 || index == kernel_pde_index() {
        PTE_P | PTE_W | PTE_PS
    } else {
        0
    }
}

/// Whether `dir` is the boot page directory.
pub open spec fn is_entry_pg_dir(dir: Seq<u32>) -> bool {
    &&& dir.len() == 1024
    &&& forall|i: int| 0 <= i < 1024 ==> #[trigger] dir[i] == entry_pde(i)
}

/// A page directory. The hardware requires it to start on a 4 KiB boundary.
#[derive(Debug, Clone, Copy)]
pub struct AlignedPdeArray(pub [u32; 1024]);

impl View for AlignedPdeArray {
    type V = Seq<u32>;

    open spec fn view(&self) -> Seq<u32> {
        self.0@
    }
}

/// Builds the boot page directory.
pub fn make_entry_pg_dir() -> (dir: AlignedPdeArray)
    ensures
        is_entry_pg_dir(dir@),
{
    let mut arr: [u32; 1024] = [0u32; 1024];
    assert(KERNEL_BASE >> PDX_SHIFT == 512) by (bit_vector)
        requires
            KERNEL_BASE == 0x8000_0000u32,
            PDX_SHIFT == 22u32,
    ;
    arr[0] = (0) | PTE_P | PTE_W | PTE_PS;
    arr[(KERNEL_BASE >> PDX_SHIFT) as usize] = (0) | PTE_P | PTE_W | PTE_PS;
    assert(0u32 | 1u32 | 2u32 | 0x80u32 == 1u32 | 2u32 | 0x80u32) by (bit_vector);
    AlignedPdeArray(arr)
}

/// The populated entries of the boot page directory are the value 0x83:
/// present, writable, large page, physical frame 0. Every other entry is
/// zero, so exactly two entries are non-zero.
pub proof fn lemma_entry_pde_values(index: int)
    ensures
        kernel_pde_index() == 512,
        kernel_pde_index() == KERNEL_BASE >> PDX_SHIFT,
        entry_pde(index) == if index == 0 || index == 512 {
            0x83u32
        } else {
            0u32
        },
        entry_pde(0) & PTE_P == PTE_P,
        entry_pde(0) & PTE_W == PTE_W,
        entry_pde(0) & PTE_PS == PTE_PS,
        entry_pde(0) & 0xFFC0_0000 == 0,
{
    assert(1u32 | 2u32 | 0x80u32 == 0x83u32) by (bit_vector);
    assert(0x8000_0000u32 >> 22u32 == 512) by (bit_vector);
    assert(0x83u32 & 1u32 == 1u32) by (bit_vector);
    assert(0x83u32 & 2u32 == 2u32) by (bit_vector);
    assert(0x83u32 & 0x80u32 == 0x80u32) by (bit_vector);
    assert(0x83u32 & 0xFFC0_0000u32 == 0) by (bit_vector);
}

/// The physical address that `dir` maps the virtual address `vaddr` to,
/// where every present entry is a 4 MiB page.
pub open spec fn translated(dir: Seq<u32>, vaddr: u32) -> Option<u32> {
    let entry = dir[vaddr as int / 0x40_0000];
    if entry & PTE_P != 0 && entry & PTE_PS != 0 {
        Some((entry & 0xFFC0_0000) | (vaddr & 0x3F_FFFF))
    } else {
        None
    }
}

/// Walks the page directory for `vaddr`.
pub fn translate(dir: &AlignedPdeArray, vaddr: VirtAddr) -> (phys: Option<PhysAddr>)
    ensures
        translated(dir@, vaddr.0) matches Some(p) ==> phys == Some(PhysAddr(p)),
        translated(dir@, vaddr.0) is None ==> phys is None,
{
    let v: u32 = vaddr.0;
    assert(v >> 22 == v / 0x40_0000 && v >> 22 < 1024) by (bit_vector);
    let entry: u32 = dir.0[(v >> PDX_SHIFT) as usize];
    if entry & PTE_P != 0 && entry & PTE_PS != 0 {
        Some(PhysAddr((entry & 0xFFC0_0000) | (v & 0x3F_FFFF)))
    } else {
        None
    }
}

/// Under the boot page directory the first 4 MiB are mapped onto
/// themselves, the 4 MiB at the kernel's virtual base are mapped onto the
/// same physical frame, and nothing else is mapped.
pub proof fn lemma_entry_mapping(dir: Seq<u32>, vaddr: u32)
    requires
        is_entry_pg_dir(dir),
    ensures
        vaddr < 0x40_0000 ==> translated(dir, vaddr) == Some(vaddr),
        KERNEL_BASE <= vaddr < KERNEL_BASE + 0x40_0000 ==> translated(dir, vaddr) == Some(
            (vaddr - KERNEL_BASE) as u32,
        ),
        0x40_0000 <= vaddr < KERNEL_BASE || vaddr >= KERNEL_BASE + 0x40_0000 ==> translated(
            dir,
            vaddr,
        ) is None,
{
    let index = vaddr as int / 0x40_0000;
    lemma_entry_pde_values(index);
    assert(dir[index] == entry_pde(index));
    assert(0u32 & 1u32 == 0u32) by (bit_vector);
    assert(0x83u32 & 1u32 != 0u32) by (bit_vector);
    assert(0x83u32 & 0x80u32 != 0u32) by (bit_vector);
    assert((0x83u32 & 0xFFC0_0000u32) | (vaddr & 0x3F_FFFFu32) == vaddr & 0x3F_FFFFu32)
        by (bit_vector);
    assert(vaddr < 0x40_0000u32 ==> vaddr & 0x3F_FFFFu32 == vaddr) by (bit_vector);
    assert(0x8000_0000u32 <= vaddr && vaddr < 0x8040_0000u32 ==> vaddr & 0x3F_FFFFu32 == vaddr
        - 0x8000_0000u32) by (bit_vector);
}

/// How far the kernel-entry bootstrap has come.
#[derive(Debug, Clone, Copy, PartialEq, Eq, Structural)]
pub enum EntryStep {
    /// The entry point was reached; paging is off.
    Entered,
    /// 4 MiB pages are enabled.
    LargePagesOn,
    /// The page-table-base register points at the page directory.
    DirectoryLoaded,
    /// Paging and write protection are on.
    PagingOn,
    /// The stack pointer is at the top of the boot stack.
    StackSet,
    /// Control is in the kernel's main routine.
    InKernel,
}

/// The registers the kernel-entry bootstrap programs, and how far it has
/// come.
#[derive(Debug, Clone, Copy, PartialEq, Eq, Structural)]
pub struct ControlRegs {
    /// How far the bootstrap has come.
    pub step: EntryStep,
    /// Primary control register.
    pub cr0: u32,
    /// Page-table-base register; holds a physical address.
    pub cr3: u32,
    /// Fourth control register.
    pub cr4: u32,
    /// Stack pointer.
    pub esp: u32,
    /// Instruction pointer.
    pub eip: u32,
}

/// Sets the page-size-extension bit, so that the page directory may hold
/// 4 MiB pages. This is the first step.
pub fn enable_large_pages(regs: &mut ControlRegs)
    requires
        old(regs).step == EntryStep::Entered,
    ensures
        *final(regs) == (ControlRegs {
            step: EntryStep::LargePagesOn,
            cr4: old(regs).cr4 | CR4_PSE,
            ..*old(regs)
        }),
{
    regs.cr4 = regs.cr4 | CR4_PSE;
    regs.step = EntryStep::LargePagesOn;
}

/// Points the page-table-base register at the physical address of the page
/// directory that is linked at `pg_dir`. Large pages must be on already.
pub fn load_page_directory(regs: &mut ControlRegs, pg_dir: VirtAddr)
    requires
        old(regs).step == EntryStep::LargePagesOn,
        pg_dir.0 >= KERNEL_BASE,
        pg_dir.0 % 4096 == 0,
    ensures
        *final(regs) == (ControlRegs {
            step: EntryStep::DirectoryLoaded,
            cr3: (pg_dir.0 - KERNEL_BASE) as u32,
            ..*old(regs)
        }),
        final(regs).cr3 % 4096 == 0,
{
    regs.cr3 = pg_dir.0 - KERNEL_BASE;
    regs.step = EntryStep::DirectoryLoaded;
}

/// Turns on paging and write protection. The page directory must be loaded
/// already.
pub fn enable_paging(regs: &mut ControlRegs)
    requires
        old(regs).step == EntryStep::DirectoryLoaded,
    ensures
        *final(regs) == (ControlRegs {
            step: EntryStep::PagingOn,
            cr0: old(regs).cr0 | (CR0_PG | CR0_WP),
            ..*old(regs)
        }),
{
    regs.cr0 = regs.cr0 | (CR0_PG | CR0_WP);
    regs.step = EntryStep::PagingOn;
}

/// Points the stack pointer at the top of the boot stack that starts at
/// `stack`. Paging must be on already.
pub fn set_stack(regs: &mut ControlRegs, stack: VirtAddr)
    requires
        old(regs).step == EntryStep::PagingOn,
        stack.0 + K_STACK_SIZE <= u32::MAX,
    ensures
        *final(regs) == (ControlRegs {
            step: EntryStep::StackSet,
            esp: (stack.0 + K_STACK_SIZE) as u32,
            ..*old(regs)
        }),
{
    regs.esp = stack.0 + K_STACK_SIZE;
    regs.step = EntryStep::StackSet;
}

/// Transfers control to the kernel's main routine. The stack must be set
/// already.
pub fn jump_to_main(regs: &mut ControlRegs, main: VirtAddr)
    requires
        old(regs).step == EntryStep::StackSet,
    ensures
        *final(regs) == (ControlRegs { step: EntryStep::InKernel, eip: main.0, ..*old(regs) }),
{
    regs.eip = main.0;
    regs.step = EntryStep::InKernel;
}

/// The kernel's entry routine: enables 4 MiB pages, points the
/// page-table-base register at the physical address of the page directory,
/// turns on paging and write protection, points the stack pointer at the
/// top of the boot stack and transfers control to the kernel's main
/// routine, in this order.
pub fn entry(regs: &mut ControlRegs, pg_dir: VirtAddr, stack: VirtAddr, main: VirtAddr)
    requires
        old(regs).step == EntryStep::Entered,
        pg_dir.0 >= KERNEL_BASE,
        pg_dir.0 % 4096 == 0,
        stack.0 + K_STACK_SIZE <= u32::MAX,
    ensures
        *final(regs) == (ControlRegs {
            step: EntryStep::InKernel,
            cr4: old(regs).cr4 | CR4_PSE,
            cr3: (pg_dir.0 - KERNEL_BASE) as u32,
            cr0: old(regs).cr0 | (CR0_PG | CR0_WP),
            esp: (stack.0 + K_STACK_SIZE) as u32,
            eip: main.0,
        }),
        final(regs).cr3 % 4096 == 0,
{
    enable_large_pages(regs);
    load_page_directory(regs, pg_dir);
    enable_paging(regs);
    set_stack(regs, stack);
    jump_to_main(regs, main);
}

} // verus!
