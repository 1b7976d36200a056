//! The simulated hardware the boot path runs on: physical memory, a raw disk
//! behind a legacy ATA controller, and a record of the port accesses issued.

use vstd::prelude::*;
use crate::consts::{
    ATA_CMD_READ, ATA_DATA, ATA_DRIVE, ATA_LBA_HI, ATA_LBA_LO, ATA_LBA_MID, ATA_SEC_CNT, ATA_STATUS,
    KBC_CMD_WRITE_OUTPUT, KBC_COMMAND, KBC_DATA,
};

verus! {

/// One access to an I/O port or one store to memory.
#[derive(Debug, Clone, Copy, PartialEq, Eq, Structural)]
pub enum BusEvent {
    /// A byte read from a port, with the value that was read.
    In { port: u16, value: u8 },
    /// A byte written to a port.
    Out { port: u16, value: u8 },
    /// `count` 32-bit words read from a port into memory at `addr`.
    InsL { port: u16, addr: u32, count: u32 },
    /// A single byte stored in memory.
    Store { addr: u32, value: u8 },
}

/// `mem` with the bytes of `data` stored at address `at`.
pub open spec fn overlay(mem: Seq<u8>, at: int, data: Seq<u8>) -> Seq<u8> {
    Seq::new(
        mem.len(),
        |i: int|
            if at <= i < at + data.len() {
                data[i - at]
            } else {
                mem[i]
            },
    )
}

/// `count` bytes of value `value`.
pub open spec fn fill(value: u8, count: int) -> Seq<u8> {
    Seq::new(count as nat, |i: int| value)
}

/// Whether a status byte read from `port` lets a wait on that port end: the
/// ATA status register with "busy" (bit 7) clear and "ready" (bit 6) set,
/// the keyboard controller with "input buffer full" (bit 1) clear.
pub open spec fn status_ready(port: u16, status: u8) -> bool {
    if port == ATA_STATUS {
        status as int / 64 % 4 == 1
    } else {
        status as int / 2 % 2 == 0
    }
}

/// What a port reads as when nothing further is pending on it: the ATA
/// controller is ready, the keyboard controller has empty buffers, and any
/// other port is a floating bus.
pub open spec fn idle_status(port: u16) -> u8 {
    if port == ATA_STATUS {
        0x40
    } else if port == KBC_COMMAND {
        0
    } else {
        0xFF
    }
}

/// The value of the `k`-th read of `port`, where `feed` holds the status
/// bytes the port will report next.
pub open spec fn status_at(port: u16, feed: Seq<u8>, k: int) -> u8 {
    if 0 <= k < feed.len() {
        feed[k]
    } else {
        idle_status(port)
    }
}

/// Number of reads of `port` that a wait takes: up to and including the
/// first status that lets the wait end.
pub open spec fn polls_needed(port: u16, feed: Seq<u8>) -> int
    decreases feed.len(),
{
    if feed.len() == 0 || status_ready(port, feed[0]) {
        1
    } else {
        1 + polls_needed(port, feed.skip(1))
    }
}

/// The record of `n` consecutive reads of `port`.
pub open spec fn polls(port: u16, feed: Seq<u8>, n: int) -> Seq<BusEvent> {
    Seq::new(n as nat, |k: int| BusEvent::In { port, value: status_at(port, feed, k) })
}

/// What is left of `feed` after `n` reads.
pub open spec fn feed_after(feed: Seq<u8>, n: int) -> Seq<u8> {
    if 0 <= n <= feed.len() {
        feed.skip(n)
    } else {
        Seq::empty()
    }
}

/// Task-file registers of the ATA controller and the position of the data
/// phase in progress.
#[derive(Debug, Clone, Copy, PartialEq, Eq, Structural)]
pub struct Device {
    /// Sector count register (port 0x1F2).
    pub sector_count: u8,
    /// LBA bits 0-7 (port 0x1F3).
    pub lba_low: u8,
    /// LBA bits 8-15 (port 0x1F4).
    pub lba_mid: u8,
    /// LBA bits 16-23 (port 0x1F5).
    pub lba_high: u8,
    /// Drive/head register (port 0x1F6).
    pub drive: u8,
    /// Byte position on disk of the next data word.
    pub cursor: u64,
    /// Bytes left in the data phase of the last read command.
    pub pending: u32,
}

impl Device {
    /// The controller at rest, with every register zero.
    pub open spec fn idle() -> Device {
        Device {
            sector_count: 0,
            lba_low: 0,
            lba_mid: 0,
            lba_high: 0,
            drive: 0,
            cursor: 0,
            pending: 0,
        }
    }

    /// The 28-bit sector address held in the task-file registers.
    pub open spec fn lba(self) -> int {
        self.lba_low + 256 * self.lba_mid + 65536 * self.lba_high + 16777216 * (self.drive % 16)
    }

    /// Number of bytes a read command transfers: one sector per unit of the
    /// sector count, where a count of zero stands for 256.
    pub open spec fn transfer_len(self) -> int {
        if self.sector_count == 0 {
            131072int
        } else {
            self.sector_count * 512int
        }
    }

    /// The controller after `value` was written to `port`.
    pub open spec fn after_out(self, port: u16, value: u8) -> Device {
        if port == ATA_SEC_CNT {
            Device { sector_count: value, ..self }
        } else if port == ATA_LBA_LO {
            Device { lba_low: value, ..self }
        } else if port == ATA_LBA_MID {
            Device { lba_mid: value, ..self }
        } else if port == ATA_LBA_HI {
            Device { lba_high: value, ..self }
        } else if port == ATA_DRIVE {
            Device { drive: value, ..self }
        } else if port == ATA_STATUS && value == ATA_CMD_READ {
            Device {
                cursor: (self.lba() * 512) as u64,
                pending: self.transfer_len() as u32,
                ..self
            }
        } else {
            self
        }
    }

    /// The controller after `len` bytes of the data phase were consumed.
    pub open spec fn after_data(self, len: int) -> Device {
        Device { cursor: (self.cursor + len) as u64, pending: (self.pending - len) as u32, ..self }
    }
}

/// State of the keyboard controller, which owns the A20 gate.
#[derive(Debug, Clone, Copy, PartialEq, Eq, Structural)]
pub struct Keyboard {
    /// Whether the next byte written to the data port goes to the output
    /// port.
    pub armed: bool,
    /// The output port; a value of 0xDF opens the A20 gate.
    pub output_port: u8,
}

impl Keyboard {
    /// The controller at rest, with the A20 gate closed.
    pub open spec fn idle() -> Keyboard {
        Keyboard { armed: false, output_port: 0 }
    }

    /// The controller after `value` was written to `port`.
    pub open spec fn after_out(self, port: u16, value: u8) -> Keyboard {
        if port == KBC_COMMAND {
            Keyboard { armed: value == KBC_CMD_WRITE_OUTPUT, ..self }
        } else if port == KBC_DATA && self.armed {
            Keyboard { armed: false, output_port: value }
        } else {
            self
        }
    }
}

/// A simulated machine: physical memory indexed by physical address, the raw
/// bytes of the disk, the ATA and keyboard controllers with the status bytes
/// they are going to report, and the record of every port access and every
/// store.
#[derive(Debug)]
pub struct Machine {
    /// Physical memory; the index is the physical address.
    pub memory: Vec<u8>,
    /// Raw bytes of the disk; sector `n` is bytes `512 n .. 512 n + 512`.
    pub disk: Vec<u8>,
    /// The ATA controller.
    pub device: Device,
    /// The keyboard controller.
    pub keyboard: Keyboard,
    /// The bytes the ATA status register reports next, one per read; once
    /// they are used up the drive reads as ready (0x40).
    pub disk_status: Vec<u8>,
    /// The bytes the keyboard-controller status register reports next; once
    /// they are used up the controller reads as empty (0).
    pub keyboard_status: Vec<u8>,
    /// Port accesses and stores, in the order they were issued.
    pub trace: Vec<BusEvent>,
}

/// The mathematical state of a [`Machine`].
pub struct MachineView {
    /// Physical memory; the index is the physical address.
    pub memory: Seq<u8>,
    /// Raw bytes of the disk.
    pub disk: Seq<u8>,
    /// The ATA controller.
    pub device: Device,
    /// The keyboard controller.
    pub keyboard: Keyboard,
    /// The bytes the ATA status register reports next.
    pub disk_status: Seq<u8>,
    /// The bytes the keyboard-controller status register reports next.
    pub keyboard_status: Seq<u8>,
    /// Port accesses and stores, in the order they were issued.
    pub trace: Seq<BusEvent>,
}

impl View for Machine {
    type V = MachineView;

    open spec fn view(&self) -> MachineView {
        MachineView {
            memory: self.memory@,
            disk: self.disk@,
            device: self.device,
            keyboard: self.keyboard,
            disk_status: self.disk_status@,
            keyboard_status: self.keyboard_status@,
            trace: self.trace@,
        }
    }
}

impl MachineView {
    /// Well-formedness: every byte of memory has a 32-bit physical address.
    pub open spec fn wf(self) -> bool {
        self.memory.len() <= 0xFFFF_FFFF
    }

    /// The status bytes that `port` reports next; empty for a port without
    /// a status register.
    pub open spec fn feed(self, port: u16) -> Seq<u8> {
        if port == ATA_STATUS {
            self.disk_status
        } else if port == KBC_COMMAND {
            self.keyboard_status
        } else {
            Seq::empty()
        }
    }

    /// The state after `n` consecutive reads of `port`: the reads are
    /// recorded with their values and the status bytes are used up.
    pub open spec fn polled(self, port: u16, n: int) -> MachineView {
        MachineView {
            disk_status: if port == ATA_STATUS {
                feed_after(self.disk_status, n)
            } else {
                self.disk_status
            },
            keyboard_status: if port == KBC_COMMAND {
                feed_after(self.keyboard_status, n)
            } else {
                self.keyboard_status
            },
            trace: self.trace + polls(port, self.feed(port), n),
            ..self
        }
    }

    /// The state after a wait on `port`: the port was read up to and
    /// including the first status that lets the wait end, and nothing else
    /// happened.
    pub open spec fn waited(self, port: u16) -> MachineView {
        self.polled(port, polls_needed(port, self.feed(port)))
    }

    /// The state after `value` was written to `port`.
    pub open spec fn after_out(self, port: u16, value: u8) -> MachineView {
        MachineView {
            device: self.device.after_out(port, value),
            keyboard: self.keyboard.after_out(port, value),
            trace: self.trace.push(BusEvent::Out { port, value }),
            ..self
        }
    }
}

/// A wait takes exactly `j + 1` reads when the `j`-th pending status is the
/// first that lets it end, and one read more than there are pending status
/// bytes when none of them does.
pub proof fn lemma_polls_until_first_ready(port: u16, feed: Seq<u8>, j: int)
    requires
        0 <= j <= feed.len(),
        forall|k: int| 0 <= k < j ==> !status_ready(port, #[trigger] feed[k]),
        j < feed.len() ==> status_ready(port, feed[j]),
    ensures
        polls_needed(port, feed) == j + 1,
    decreases feed.len(),
{
    if j > 0 {
        assert(!status_ready(port, feed[0]));
        let rest = feed.skip(1);
        assert forall|k: int| 0 <= k < j - 1 implies !status_ready(port, #[trigger] rest[k]) by {
            assert(rest[k] == feed[k + 1]);
        }
        lemma_polls_until_first_ready(port, rest, j - 1);
    }
}

/// One more read after `i` reads is `i + 1` reads.
pub proof fn lemma_polled_step(m: MachineView, port: u16, i: int)
    requires
        i >= 0,
    ensures
        m.polled(port, i).polled(port, 1) == m.polled(port, i + 1),
        m.polled(port, 0) == m,
        status_at(port, m.polled(port, i).feed(port), 0) == status_at(port, m.feed(port), i),
{
    let f = m.feed(port);
    assert(feed_after(feed_after(f, i), 1) =~= feed_after(f, i + 1));
    assert(feed_after(f, 0) =~= f);
    assert(m.trace + polls(port, f, 0) =~= m.trace);
    assert((m.trace + polls(port, f, i)) + polls(port, feed_after(f, i), 1) =~= m.trace + polls(
        port,
        f,
        i + 1,
    ));
}

/// The hardware-access interface of the boot path: port I/O and single
/// byte accesses to physical memory, each with its effect on the machine
/// state.
pub trait Hardware {
    /// The state of the machine. A backend that cannot observe its state
    /// leaves it unspecified.
    open spec fn state(&self) -> MachineView {
        arbitrary()
    }

    /// Reads a byte from an I/O port. A status register reports the next of
    /// its pending status bytes, or its idle value when none is pending;
    /// every other port reads as a floating bus. The read is recorded.
    fn inb(&mut self, port: u16) -> (value: u8)
        ensures
            value == status_at(port, old(self).state().feed(port), 0),
            final(self).state() == old(self).state().polled(port, 1),
    ;

    /// Writes a byte to an I/O port: the access is recorded and the
    /// addressed controller reacts to it.
    fn outb(&mut self, port: u16, value: u8)
        ensures
            final(self).state() == old(self).state().after_out(port, value),
    ;

    /// Reads `cnt` 32-bit words from the ATA data port into memory at
    /// `addr`.
    fn insl(&mut self, port: u16, addr: u32, cnt: u32)
        requires
            port == ATA_DATA,
            4 * cnt <= old(self).state().device.pending,
            old(self).state().device.cursor + 4 * cnt <= old(self).state().disk.len(),
            addr + 4 * cnt <= old(self).state().memory.len(),
        ensures
            final(self).state() == (MachineView {
                memory: overlay(
                    old(self).state().memory,
                    addr as int,
                    old(self).state().disk.subrange(
                        old(self).state().device.cursor as int,
                        old(self).state().device.cursor + 4 * cnt,
                    ),
                ),
                device: old(self).state().device.after_data(4 * cnt),
                trace: old(self).state().trace.push(BusEvent::InsL { port, addr, count: cnt }),
                ..old(self).state()
            }),
    ;

    /// Reads the byte of memory at `addr`.
    fn load(&self, addr: u32) -> (value: u8)
        requires
            addr < self.state().memory.len(),
        ensures
            value == self.state().memory[addr as int],
    ;

    /// Stores `value` in memory at `addr`; the store is recorded, and is
    /// never reordered or elided.
    fn store(&mut self, addr: u32, value: u8)
        requires
            addr < old(self).state().memory.len(),
        ensures
            final(self).state() == (MachineView {
                memory: old(self).state().memory.update(addr as int, value),
                trace: old(self).state().trace.push(BusEvent::Store { addr, value }),
                ..old(self).state()
            }),
    ;
}

impl Machine {
    /// A machine with `memory_size` bytes of zeroed memory, the given disk,
    /// idle controllers with no status bytes pending, and an empty trace.
    pub fn new(memory_size: u32, disk: Vec<u8>) -> (machine: Machine)
        ensures
            machine@ == (MachineView {
                memory: fill(0, memory_size as int),
                disk: disk@,
                device: Device::idle(),
                keyboard: Keyboard::idle(),
                disk_status: Seq::empty(),
                keyboard_status: Seq::empty(),
                trace: Seq::empty(),
            }),
            machine@.wf(),
    {
        let mut memory: Vec<u8> = Vec::new();
        let mut i: u32 = 0;
        assert(memory@ =~= fill(0, 0));
        while i < memory_size
            invariant
                i <= memory_size,
                memory@ == fill(0, i as int),
            decreases memory_size - i,
        {
            memory.push(0);
            i += 1;
            assert(memory@ =~= fill(0, i as int));
        }
        Machine {
            memory,
            disk,
            device: Device {
                sector_count: 0,
                lba_low: 0,
                lba_mid: 0,
                lba_high: 0,
                drive: 0,
                cursor: 0,
                pending: 0,
            },
            keyboard: Keyboard { armed: false, output_port: 0 },
            disk_status: Vec::new(),
            keyboard_status: Vec::new(),
            trace: Vec::new(),
        }
    }
}

impl Hardware for Machine {
    open spec fn state(&self) -> MachineView {
        self@
    }

    fn inb(&mut self, port: u16) -> (value: u8) {
        let ghost before = self@;
        let value: u8 = if port == ATA_STATUS {
            if self.disk_status.len() > 0 {
                self.disk_status.remove(0)
            } else {
                0x40
            }
        } else if port == KBC_COMMAND {
            if self.keyboard_status.len() > 0 {
                self.keyboard_status.remove(0)
            } else {
                0
            }
        } else {
            0xFF
        };
        self.trace.push(BusEvent::In { port, value });
        proof {
            assert(self.disk_status@ =~= before.polled(port, 1).disk_status);
            assert(self.keyboard_status@ =~= before.polled(port, 1).keyboard_status);
            assert(self.trace@ =~= before.polled(port, 1).trace);
        }
        value
    }

    fn outb(&mut self, port: u16, value: u8) {
        self.trace.push(BusEvent::Out { port, value });
        if port == KBC_COMMAND {
            self.keyboard.armed = value == KBC_CMD_WRITE_OUTPUT;
        } else if port == KBC_DATA && self.keyboard.armed {
            self.keyboard.armed = false;
            self.keyboard.output_port = value;
        }
        if port == ATA_SEC_CNT {
            self.device.sector_count = value;
        } else if port == ATA_LBA_LO {
            self.device.lba_low = value;
        } else if port == ATA_LBA_MID {
            self.device.lba_mid = value;
        } else if port == ATA_LBA_HI {
            self.device.lba_high = value;
        } else if port == ATA_DRIVE {
            self.device.drive = value;
        } else if port == ATA_STATUS && value == ATA_CMD_READ {
            let lba: u64 = self.device.lba_low as u64 + 256 * (self.device.lba_mid as u64) + 65536
                * (self.device.lba_high as u64) + 16777216 * ((self.device.drive % 16) as u64);
            let sectors: u32 = if self.device.sector_count == 0 {
                256
            } else {
                self.device.sector_count as u32
            };
            self.device.cursor = lba * 512;
            self.device.pending = sectors * 512;
        }
    }

    fn insl(&mut self, port: u16, addr: u32, cnt: u32) {
        self.trace.push(BusEvent::InsL { port, addr, count: cnt });
        let len: u32 = 4 * cnt;
        let ghost before = self.memory@;
        let ghost start = self.device.cursor as int;
        let mut k: u32 = 0;
        assert(before =~= overlay(before, addr as int, self.disk@.subrange(start, start)));
        while k < len
            invariant
                k <= len,
                start == self.device.cursor,
                start + len <= self.disk.len(),
                addr + len <= self.memory.len(),
                self.memory@ == overlay(before, addr as int, self.disk@.subrange(start, start + k)),
                self@ == (MachineView {
                    memory: self.memory@,
                    trace: old(self).trace@.push(BusEvent::InsL { port, addr, count: cnt }),
                    ..old(self)@
                }),
            decreases len - k,
        {
            let from: usize = (self.device.cursor + k as u64) as usize;
            let to: usize = addr as usize + k as usize;
            let byte: u8 = self.disk[from];
            self.memory.set(to, byte);
            k += 1;
            assert(self.memory@ =~= overlay(
                before,
                addr as int,
                self.disk@.subrange(start, start + k),
            ));
        }
        self.device.cursor = self.device.cursor + len as u64;
        self.device.pending = self.device.pending - len;
    }

    fn load(&self, addr: u32) -> (value: u8) {
        self.memory[addr as usize]
    }

    fn store(&mut self, addr: u32, value: u8) {
        self.memory.set(addr as usize, value);
        self.trace.push(BusEvent::Store { addr, value });
    }
}

} // verus!
