//! The stage-1 boot sequence: the state machine that takes the CPU from
//! 16-bit real mode to flat 32-bit protected mode and dispatches into the
//! executable loader, and the descriptor table it loads on the way.

use vstd::prelude::*;
use crate::consts::{KBC_A20_ON, KBC_CMD_WRITE_OUTPUT, KBC_COMMAND, KBC_DATA, KBC_STATUS_BUSY};
use crate::loader::{bootmain, lemma_loader_ignores_devices};
use crate::machine::{lemma_polled_step, polls_needed, status_ready, Hardware, MachineView};
use crate::outcome::{HaltReason, Outcome};

verus! {

/// Selector of the flat code segment: entry 1 of the descriptor table.
pub const CODE_SELECTOR: u16 = 0x08;

/// Selector of the flat data segment: entry 2 of the descriptor table.
pub const DATA_SELECTOR: u16 = 0x10;

/// Control register 0: protection enable.
pub const CR0_PE: u32 = 0x1;

/// Address at which firmware places the boot sector; the memory below it
/// serves as the throwaway boot stack.
pub const BOOT_STACK_TOP: u32 = 0x7C00;

/// Access rights of the code segment: executable and readable.
pub const SEG_CODE_ACCESS: u8 = 0xA;

/// Access rights of the data segment: writable.
pub const SEG_DATA_ACCESS: u8 = 0x2;

/// The eight bytes of a segment descriptor with the given access rights,
/// base and limit: present, ring 0, 32-bit, limit counted in 4 KiB pages.
pub open spec fn descriptor_bytes(access: u8, base: u32, limit: u32) -> Seq<u8> {
    seq![
        ((limit >> 12) & 0xFF) as u8,
        ((limit >> 20) & 0xFF) as u8,
        (base & 0xFF) as u8,
        ((base >> 8) & 0xFF) as u8,
        ((base >> 16) & 0xFF) as u8,
        0x90u8 | (access & 0xF),
        0xC0u8 | (((limit >> 28) & 0xF) as u8),
        ((base >> 24) & 0xFF) as u8,
    ]
}

/// Encodes a segment descriptor.
pub fn seg_descriptor(access: u8, base: u32, limit: u32) -> (bytes: [u8; 8])
    ensures
        bytes@ == descriptor_bytes(access, base, limit),
{
    let bytes: [u8; 8] = [
        ((limit >> 12) & 0xFF) as u8,
        ((limit >> 20) & 0xFF) as u8,
        (base & 0xFF) as u8,
        ((base >> 8) & 0xFF) as u8,
        ((base >> 16) & 0xFF) as u8,
        0x90u8 | (access & 0xF),
        0xC0u8 | (((limit >> 28) & 0xF) as u8),
        ((base >> 24) & 0xFF) as u8,
    ];
    assert(bytes@ =~= descriptor_bytes(access, base, limit));
    bytes
}

/// The flat segments span the whole 4 GiB address space from base 0: their
/// descriptors are `FF FF 00 00 00 9A CF 00` for code and
/// `FF FF 00 00 00 92 CF 00` for data.
pub proof fn lemma_flat_descriptors()
    ensures
        descriptor_bytes(SEG_CODE_ACCESS, 0, 0xFFFF_FFFF) == seq![
            0xFFu8,
            0xFFu8,
            0u8,
            0u8,
            0u8,
            0x9Au8,
            0xCFu8,
            0u8,
        ],
        descriptor_bytes(SEG_DATA_ACCESS, 0, 0xFFFF_FFFF) == seq![
            0xFFu8,
            0xFFu8,
            0u8,
            0u8,
            0u8,
            0x92u8,
            0xCFu8,
            0u8,
        ],
{
    assert((0xFFFF_FFFFu32 >> 12) & 0xFF == 0xFF) by (bit_vector);
    assert((0xFFFF_FFFFu32 >> 20) & 0xFF == 0xFF) by (bit_vector);
    assert((0xFFFF_FFFFu32 >> 28) & 0xF == 0xF) by (bit_vector);
    assert(0u32 & 0xFF == 0 && (0u32 >> 8) & 0xFF == 0 && (0u32 >> 16) & 0xFF == 0 && (0u32 >> 24)
        & 0xFF == 0) by (bit_vector);
    assert(0x90u8 | (0xAu8 & 0xF) == 0x9A) by (bit_vector);
    assert(0x90u8 | (0x2u8 & 0xF) == 0x92) by (bit_vector);
    assert(0xC0u8 | 0xFu8 == 0xCF) by (bit_vector);
    assert(descriptor_bytes(SEG_CODE_ACCESS, 0, 0xFFFF_FFFF) =~= seq![
        0xFFu8,
        0xFFu8,
        0u8,
        0u8,
        0u8,
        0x9Au8,
        0xCFu8,
        0u8,
    ]);
    assert(descriptor_bytes(SEG_DATA_ACCESS, 0, 0xFFFF_FFFF) =~= seq![
        0xFFu8,
        0xFFu8,
        0u8,
        0u8,
        0u8,
        0x92u8,
        0xCFu8,
        0u8,
    ]);
}

/// The descriptor table of the boot sequence.
#[derive(Debug, Clone, Copy)]
pub struct DescriptorTable {
    /// Entry 0: the mandatory null descriptor.
    pub null: [u8; 8],
    /// Entry 1: the flat code segment.
    pub code: [u8; 8],
    /// Entry 2: the flat data segment.
    pub data: [u8; 8],
}

/// Builds the descriptor table: a null entry, one flat code segment and one
/// flat data segment, both with base 0 and limit 0xFFFFFFFF.
pub fn boot_gdt() -> (gdt: DescriptorTable)
    ensures
        gdt.null@ == Seq::new(8, |i: int| 0u8),
        gdt.code@ == descriptor_bytes(SEG_CODE_ACCESS, 0, 0xFFFF_FFFF),
        gdt.data@ == descriptor_bytes(SEG_DATA_ACCESS, 0, 0xFFFF_FFFF),
{
    let null: [u8; 8] = [0u8; 8];
    assert(null@ =~= Seq::new(8, |i: int| 0u8));
    DescriptorTable {
        null,
        code: seg_descriptor(SEG_CODE_ACCESS, 0, 0xFFFF_FFFF),
        data: seg_descriptor(SEG_DATA_ACCESS, 0, 0xFFFF_FFFF),
    }
}

/// The states of the boot sequence.
#[derive(Debug, Clone, Copy, PartialEq, Eq, Structural)]
pub enum BootState {
    /// 16-bit real mode, as firmware left the CPU.
    RealMode,
    /// Interrupts off, segment registers zero, addresses above 1 MiB usable.
    A20Enabled,
    /// The descriptor-table register points at the boot descriptor table.
    DescriptorTableLoaded,
    /// The protection-enable bit is set; instructions still decode as 16-bit.
    ProtectionEnabled,
    /// The far jump is done; instructions decode as 32-bit.
    ProtectedMode32,
    /// Data, stack and extra segments use the flat data descriptor.
    SegmentsFlat,
    /// The stack pointer is at the top of the boot sector's own memory.
    StackReady,
    /// The executable loader is running.
    Dispatched,
    /// Control has left for the kernel for good.
    KernelEntered,
    /// The machine spins forever, with no further I/O.
    Halted(HaltReason),
}

/// The hardware action that leads out of a state.
#[derive(Debug, Clone, Copy, PartialEq, Eq, Structural)]
pub enum BootAction {
    /// Disable interrupts, zero the segment registers, open the A20 gate.
    EnableA20,
    /// Load the descriptor-table register.
    LoadDescriptorTable,
    /// Set the protection-enable bit of control register 0.
    EnableProtection,
    /// Jump far through the code-segment descriptor.
    FarJump,
    /// Reload the data, stack and extra segment registers.
    ReloadSegments,
    /// Point the stack pointer at the top of the boot sector's memory.
    SetStack,
    /// Call the executable loader.
    CallLoader,
    /// Wait for the loader to jump into the kernel or to come back.
    AwaitLoader,
}

impl BootState {
    /// Whether the state is final.
    pub open spec fn terminal(self) -> bool {
        self is KernelEntered || self is Halted
    }

    /// The state that follows when the action of this state ends with
    /// `outcome`.
    pub open spec fn successor(self, outcome: Outcome) -> BootState {
        if self.terminal() {
            self
        } else {
            match outcome {
                Outcome::Halt(reason) => BootState::Halted(reason),
                Outcome::Continue => match self {
                    BootState::RealMode => BootState::A20Enabled,
                    BootState::A20Enabled => BootState::DescriptorTableLoaded,
                    BootState::DescriptorTableLoaded => BootState::ProtectionEnabled,
                    BootState::ProtectionEnabled => BootState::ProtectedMode32,
                    BootState::ProtectedMode32 => BootState::SegmentsFlat,
                    BootState::SegmentsFlat => BootState::StackReady,
                    BootState::StackReady => BootState::Dispatched,
                    _ => BootState::KernelEntered,
                },
            }
        }
    }

    /// The hardware action that leads out of this state; none for the final
    /// states.
    pub open spec fn pending(self) -> Option<BootAction> {
        match self {
            BootState::RealMode => Some(BootAction::EnableA20),
            BootState::A20Enabled => Some(BootAction::LoadDescriptorTable),
            BootState::DescriptorTableLoaded => Some(BootAction::EnableProtection),
            BootState::ProtectionEnabled => Some(BootAction::FarJump),
            BootState::ProtectedMode32 => Some(BootAction::ReloadSegments),
            BootState::SegmentsFlat => Some(BootAction::SetStack),
            BootState::StackReady => Some(BootAction::CallLoader),
            BootState::Dispatched => Some(BootAction::AwaitLoader),
            BootState::KernelEntered => None,
            BootState::Halted(_) => None,
        }
    }

    /// Position of the state in the sequence; both final states share the
    /// last position.
    pub open spec fn rank(self) -> int {
        match self {
            BootState::RealMode => 0,
            BootState::A20Enabled => 1,
            BootState::DescriptorTableLoaded => 2,
            BootState::ProtectionEnabled => 3,
            BootState::ProtectedMode32 => 4,
            BootState::SegmentsFlat => 5,
            BootState::StackReady => 6,
            BootState::Dispatched => 7,
            BootState::KernelEntered => 8,
            BootState::Halted(_) => 8,
        }
    }

    /// Whether the state is final.
    pub fn is_terminal(self) -> (terminal: bool)
        ensures
            terminal == self.terminal(),
    {
        match self {
            BootState::KernelEntered => true,
            BootState::Halted(_) => true,
            _ => false,
        }
    }

    /// The hardware action that leads out of this state; `None` exactly for
    /// the final states.
    pub fn action(self) -> (action: Option<BootAction>)
        ensures
            action == self.pending(),
    {
        match self {
            BootState::RealMode => Some(BootAction::EnableA20),
            BootState::A20Enabled => Some(BootAction::LoadDescriptorTable),
            BootState::DescriptorTableLoaded => Some(BootAction::EnableProtection),
            BootState::ProtectionEnabled => Some(BootAction::FarJump),
            BootState::ProtectedMode32 => Some(BootAction::ReloadSegments),
            BootState::SegmentsFlat => Some(BootAction::SetStack),
            BootState::StackReady => Some(BootAction::CallLoader),
            BootState::Dispatched => Some(BootAction::AwaitLoader),
            BootState::KernelEntered => None,
            BootState::Halted(_) => None,
        }
    }

    /// The state that follows when the action of this state ends with
    /// `outcome`: the next state of the sequence on `Continue`, the halt
    /// state otherwise. A final state is never left.
    pub fn next(self, outcome: Outcome) -> (state: BootState)
        ensures
            state == self.successor(outcome),
    {
        match self {
            BootState::KernelEntered => self,
            BootState::Halted(_) => self,
            _ => match outcome {
                Outcome::Halt(reason) => BootState::Halted(reason),
                Outcome::Continue => match self {
                    BootState::RealMode => BootState::A20Enabled,
                    BootState::A20Enabled => BootState::DescriptorTableLoaded,
                    BootState::DescriptorTableLoaded => BootState::ProtectionEnabled,
                    BootState::ProtectionEnabled => BootState::ProtectedMode32,
                    BootState::ProtectedMode32 => BootState::SegmentsFlat,
                    BootState::SegmentsFlat => BootState::StackReady,
                    BootState::StackReady => BootState::Dispatched,
                    _ => BootState::KernelEntered,
                },
            },
        }
    }
}

/// Every transition is irreversible: a step never leads back to an earlier
/// state, a state that is not final is always left, and a final state is
/// never left.
pub proof fn lemma_transitions_irreversible(state: BootState, outcome: Outcome)
    ensures
        state.successor(outcome).rank() >= state.rank(),
        !state.terminal() ==> state.successor(outcome).rank() > state.rank(),
        state.terminal() ==> state.successor(outcome) == state,
        outcome is Halt && !state.terminal() ==> state.successor(outcome) == BootState::Halted(
            outcome->Halt_0,
        ),
        state.successor(outcome) is KernelEntered && !state.terminal() ==> state is Dispatched
            && outcome is Continue,
{
}

/// The part of the CPU that the boot sequence programs, together with the
/// boot state it has reached.
#[derive(Debug, Clone, Copy, PartialEq, Eq, Structural)]
pub struct BootCpu {
    /// The boot state the CPU is in.
    pub state: BootState,
    /// Whether interrupts are enabled.
    pub interrupts: bool,
    /// Code segment register.
    pub cs: u16,
    /// Data segment register.
    pub ds: u16,
    /// Extra segment register.
    pub es: u16,
    /// Stack segment register.
    pub ss: u16,
    /// Additional segment register `fs`.
    pub fs: u16,
    /// Additional segment register `gs`.
    pub gs: u16,
    /// Whether the descriptor-table register points at the boot table.
    pub gdt_loaded: bool,
    /// Primary control register.
    pub cr0: u32,
    /// Stack pointer.
    pub esp: u32,
    /// Instruction pointer.
    pub eip: u32,
}

impl BootCpu {
    /// The CPU after `action` was performed in the state that it leads out
    /// of: the registers the action programs are set and the next state is
    /// reached.
    pub open spec fn after(self, action: BootAction) -> BootCpu {
        let state = self.state.successor(Outcome::Continue);
        match action {
            BootAction::EnableA20 => BootCpu {
                state,
                interrupts: false,
                ds: 0,
                es: 0,
                ss: 0,
                ..self
            },
            BootAction::LoadDescriptorTable => BootCpu { state, gdt_loaded: true, ..self },
            BootAction::EnableProtection => BootCpu { state, cr0: self.cr0 | CR0_PE, ..self },
            BootAction::FarJump => BootCpu { state, cs: CODE_SELECTOR, ..self },
            BootAction::ReloadSegments => BootCpu {
                state,
                ds: DATA_SELECTOR,
                es: DATA_SELECTOR,
                ss: DATA_SELECTOR,
                fs: 0,
                gs: 0,
                ..self
            },
            BootAction::SetStack => BootCpu { state, esp: BOOT_STACK_TOP, ..self },
            BootAction::CallLoader => BootCpu { state, ..self },
            BootAction::AwaitLoader => self,
        }
    }

    /// The CPU once the loader is through: in the kernel, at the entry
    /// address, when the loader yielded one; halted, for the loader's
    /// reason, when it came back.
    pub open spec fn finished(self, loaded: Result<u32, HaltReason>) -> BootCpu {
        match loaded {
            Ok(entry) => BootCpu {
                state: self.state.successor(Outcome::Continue),
                eip: entry,
                ..self
            },
            Err(reason) => BootCpu { state: self.state.successor(Outcome::Halt(reason)), ..self },
        }
    }

    /// The CPU after the seven steps that lead from real mode to the
    /// dispatch into the loader.
    pub open spec fn dispatched(self) -> BootCpu {
        BootCpu {
            state: BootState::Dispatched,
            interrupts: false,
            cs: CODE_SELECTOR,
            ds: DATA_SELECTOR,
            es: DATA_SELECTOR,
            ss: DATA_SELECTOR,
            fs: 0,
            gs: 0,
            gdt_loaded: true,
            cr0: self.cr0 | CR0_PE,
            esp: BOOT_STACK_TOP,
            eip: self.eip,
        }
    }
}

/// The CPU at dispatch is the real-mode CPU after the seven actions of the
/// sequence, performed in order.
pub proof fn lemma_dispatched_is_seven_steps(cpu: BootCpu)
    requires
        cpu.state == BootState::RealMode,
    ensures
        cpu.dispatched() == cpu.after(BootAction::EnableA20).after(
            BootAction::LoadDescriptorTable,
        ).after(BootAction::EnableProtection).after(BootAction::FarJump).after(
            BootAction::ReloadSegments,
        ).after(BootAction::SetStack).after(BootAction::CallLoader),
{
}

impl MachineView {
    /// The state after the A20 gate was opened through the keyboard
    /// controller: a wait for the controller, the "write output port"
    /// command, another wait, then the output-port value.
    pub open spec fn a20_enabled(self) -> MachineView {
        self.waited(KBC_COMMAND).after_out(KBC_COMMAND, KBC_CMD_WRITE_OUTPUT).waited(
            KBC_COMMAND,
        ).after_out(KBC_DATA, KBC_A20_ON)
    }
}

/// Opening the A20 gate leaves the output port of the keyboard controller
/// at 0xDF and touches neither memory nor the disk and its controller.
pub proof fn lemma_a20_gate_open(m: MachineView)
    ensures
        m.a20_enabled().keyboard.output_port == KBC_A20_ON,
        !m.a20_enabled().keyboard.armed,
        m.a20_enabled().memory == m.memory,
        m.a20_enabled().disk == m.disk,
        m.a20_enabled().device == m.device,
        m.a20_enabled().disk_status == m.disk_status,
{
}

/// Waits until the keyboard controller accepts a byte: reads its status
/// register until a status has "input buffer full" clear, and touches
/// nothing else.
pub fn wait_keyboard<H: Hardware>(hw: &mut H)
    ensures
        final(hw).state() == old(hw).state().waited(KBC_COMMAND),
{
    let ghost before = hw.state();
    let ghost mut i: int = 0;
    proof {
        lemma_polled_step(before, KBC_COMMAND, 0);
    }
    loop
        invariant_except_break
            i >= 0,
            hw.state() == before.polled(KBC_COMMAND, i),
            polls_needed(KBC_COMMAND, hw.state().keyboard_status) + i == polls_needed(
                KBC_COMMAND,
                before.keyboard_status,
            ),
        invariant
            before == old(hw).state(),
        ensures
            hw.state() == before.waited(KBC_COMMAND),
        decreases hw.state().keyboard_status.len(),
    {
        let ghost feed = hw.state().keyboard_status;
        let status: u8 = hw.inb(KBC_COMMAND);
        assert(((status & 0x02u8) == 0u8) <==> (status / 2 % 2 == 0)) by (bit_vector);
        proof {
            lemma_polled_step(before, KBC_COMMAND, i);
            assert(status_ready(KBC_COMMAND, status) <==> status as int / 2 % 2 == 0);
            if feed.len() > 0 {
                assert(hw.state().keyboard_status =~= feed.skip(1));
            }
            i = i + 1;
        }
        if status & KBC_STATUS_BUSY == 0 {
            break ;
        }
    }
}

/// Opens the A20 gate so that memory above 1 MiB can be addressed.
pub fn enable_a20<H: Hardware>(hw: &mut H)
    ensures
        final(hw).state() == old(hw).state().a20_enabled(),
{
    wait_keyboard(hw);
    hw.outb(KBC_COMMAND, KBC_CMD_WRITE_OUTPUT);
    wait_keyboard(hw);
    hw.outb(KBC_DATA, KBC_A20_ON);
}

/// Performs on the CPU the action that leads out of the boot state it is
/// in. An action can only be performed in its own state, so the sequence
/// cannot be reordered or cut short.
pub fn apply(cpu: &mut BootCpu, action: BootAction)
    requires
        old(cpu).state.pending() == Some(action),
        action != BootAction::AwaitLoader,
    ensures
        *final(cpu) == old(cpu).after(action),
{
    match action {
        BootAction::EnableA20 => {
            cpu.interrupts = false;
            cpu.ds = 0;
            cpu.es = 0;
            cpu.ss = 0;
        },
        BootAction::LoadDescriptorTable => {
            cpu.gdt_loaded = true;
        },
        BootAction::EnableProtection => {
            cpu.cr0 = cpu.cr0 | CR0_PE;
        },
        BootAction::FarJump => {
            cpu.cs = CODE_SELECTOR;
        },
        BootAction::ReloadSegments => {
            cpu.ds = DATA_SELECTOR;
            cpu.es = DATA_SELECTOR;
            cpu.ss = DATA_SELECTOR;
            cpu.fs = 0;
            cpu.gs = 0;
        },
        BootAction::SetStack => {
            cpu.esp = BOOT_STACK_TOP;
        },
        BootAction::CallLoader => {},
        BootAction::AwaitLoader => {},
    }
    cpu.state = cpu.state.next(Outcome::Continue);
}

/// Ends the sequence with what the loader yielded: the jump to the entry
/// address, or the halt.
pub fn finish(cpu: &mut BootCpu, loaded: Result<u32, HaltReason>)
    requires
        old(cpu).state == BootState::Dispatched,
    ensures
        *final(cpu) == old(cpu).finished(loaded),
{
    match loaded {
        Ok(entry) => {
            cpu.eip = entry;
            cpu.state = cpu.state.next(Outcome::Continue);
        },
        Err(reason) => {
            cpu.state = cpu.state.next(Outcome::Halt(reason));
        },
    }
}

/// Runs the boot sequence from real mode to its final state.
///
/// The machine ends in `KernelEntered`, with the instruction pointer at the
/// entry address of the image, when the kernel image is accepted, and in
/// `Halted` when it is not. The A20 gate is opened before anything is read
/// from the disk.
pub fn start<H: Hardware>(cpu: &mut BootCpu, hw: &mut H) -> (state: BootState)
    requires
        old(cpu).state == BootState::RealMode,
        old(hw).state().bootable(),
    ensures
        state == final(cpu).state,
        final(hw).state() == old(hw).state().a20_enabled().loaded(),
        old(hw).state().a20_enabled().image_accepted() ==> *final(cpu) == (BootCpu {
            state: BootState::KernelEntered,
            eip: old(hw).state().a20_enabled().stage().image_entry() as u32,
            ..old(cpu).dispatched()
        }),
        !old(hw).state().a20_enabled().image_accepted() ==> *final(cpu) == (BootCpu {
            state: BootState::Halted(HaltReason::BadMagic),
            ..old(cpu).dispatched()
        }),
{
    proof {
        lemma_loader_ignores_devices(hw.state(), hw.state().a20_enabled());
    }
    apply(cpu, BootAction::EnableA20);
    enable_a20(hw);
    apply(cpu, BootAction::LoadDescriptorTable);
    apply(cpu, BootAction::EnableProtection);
    apply(cpu, BootAction::FarJump);
    apply(cpu, BootAction::ReloadSegments);
    apply(cpu, BootAction::SetStack);
    apply(cpu, BootAction::CallLoader);
    let loaded = bootmain(hw);
    finish(cpu, loaded);
    cpu.state
}

} // verus!
