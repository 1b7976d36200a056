//! What the kernel does once it is entered: it greets over the serial
//! console and asks the emulator to exit.

use vstd::prelude::*;
use crate::machine::{BusEvent, Hardware, MachineView};

verus! {

/// Address of the data register of the first serial port.
pub const COM1: u32 = 0x3F8;

/// Port through which the emulator is asked to exit.
pub const QEMU_EXIT_PORT: u16 = 0x501;

/// The record of the bytes of `bytes` being stored, one by one and in
/// order, in the data register of the serial port.
pub open spec fn serial_events(bytes: Seq<u8>) -> Seq<BusEvent> {
    Seq::new(bytes.len(), |k: int| BusEvent::Store { addr: COM1, value: bytes[k] })
}

impl MachineView {
    /// The state after `bytes` were sent to the serial console: one store
    /// per byte, in order, after which the data register holds the last of
    /// them.
    pub open spec fn sent(self, bytes: Seq<u8>) -> MachineView {
        MachineView {
            memory: if bytes.len() == 0 {
                self.memory
            } else {
                self.memory.update(COM1 as int, bytes.last())
            },
            trace: self.trace + serial_events(bytes),
            ..self
        }
    }
}

/// The greeting: `Hello, xv6 Rust!` and a line feed.
pub open spec fn greeting() -> Seq<u8> {
    seq![
        0x48u8, 0x65u8, 0x6Cu8, 0x6Cu8, 0x6Fu8, 0x2Cu8, 0x20u8, 0x78u8, 0x76u8, 0x36u8, 0x20u8,
        0x52u8, 0x75u8, 0x73u8, 0x74u8, 0x21u8, 0x0Au8,
    ]
}

/// A minimal writer to the first serial port.
#[derive(Debug, Clone, Copy)]
pub struct SerialPort;

impl SerialPort {
    /// Sends the bytes of `s` to the serial console, in order.
    pub fn write_str<H: Hardware>(&mut self, hw: &mut H, s: &[u8])
        requires
            s@.len() > 0 ==> COM1 < old(hw).state().memory.len(),
        ensures
            final(hw).state() == old(hw).state().sent(s@),
    {
        let ghost before = hw.state();
        let mut i: usize = 0;
        proof {
            assert(s@.take(0).len() == 0);
            assert(before.trace =~= before.trace + serial_events(s@.take(0)));
        }
        while i < s.len()
            invariant
                i <= s.len(),
                before == old(hw).state(),
                s@.len() > 0 ==> COM1 < before.memory.len(),
                hw.state() == before.sent(s@.take(i as int)),
            decreases s.len() - i,
        {
            hw.store(COM1, s[i]);
            i += 1;
            assert(s@.take(i as int).last() == s@[i - 1]);
            assert(hw.state().memory =~= before.sent(s@.take(i as int)).memory);
            assert(hw.state().trace =~= before.sent(s@.take(i as int)).trace);
        }
        assert(s@.take(s.len() as int) =~= s@);
    }
}

/// Asks the emulator to exit with `code`.
pub fn qemu_exit<H: Hardware>(hw: &mut H, code: u8)
    ensures
        final(hw).state() == (MachineView {
            trace: old(hw).state().trace.push(BusEvent::Out { port: QEMU_EXIT_PORT, value: code }),
            ..old(hw).state()
        }),
{
    hw.outb(QEMU_EXIT_PORT, code);
}

/// The kernel's main routine: sends the greeting and asks the emulator to
/// exit with code 0.
pub fn main<H: Hardware>(hw: &mut H)
    requires
        COM1 < old(hw).state().memory.len(),
    ensures
        final(hw).state() == (MachineView {
            trace: old(hw).state().sent(greeting()).trace.push(
                BusEvent::Out { port: QEMU_EXIT_PORT, value: 0 },
            ),
            ..old(hw).state().sent(greeting())
        }),
{
    let mut serial = SerialPort;
    let text: [u8; 17] = [
        0x48, 0x65, 0x6C, 0x6C, 0x6F, 0x2C, 0x20, 0x78, 0x76, 0x36, 0x20, 0x52, 0x75, 0x73, 0x74,
        0x21, 0x0A,
    ];
    assert(text@ =~= greeting());
    serial.write_str(hw, text.as_slice());
    qemu_exit(hw, 0);
}

} // verus!
