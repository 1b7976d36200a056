use xv6_boot::kernel::{main, qemu_exit, SerialPort, COM1, QEMU_EXIT_PORT};
use xv6_boot::machine::{Machine, BusEvent};

#[test]
fn serial_writer_stores_each_byte_in_order() {
    let mut m = Machine::new(0x400, Vec::new());
    let mut serial = SerialPort;
    serial.write_str(&mut m, b"Hi");
    assert_eq!(
        m.trace,
        vec![
            BusEvent::Store { addr: 0x3F8, value: 0x48 },
            BusEvent::Store { addr: 0x3F8, value: 0x69 },
        ]
    );
    assert_eq!(m.memory[COM1 as usize], 0x69);
    serial.write_str(&mut m, b"");
    assert_eq!(m.memory[COM1 as usize], 0x69);
    assert_eq!(m.trace.len(), 2);
    for (i, b) in m.memory.iter().enumerate() {
        if i != 0x3F8 {
            assert_eq!(*b, 0);
        }
    }
}

#[test]
fn serial_writer_with_nothing_to_send_needs_no_data_register() {
    let mut m = Machine::new(4, Vec::new());
    SerialPort.write_str(&mut m, b"");
    assert!(m.trace.is_empty());
    assert_eq!(m.memory, vec![0; 4]);
}

#[test]
fn exit_request_goes_to_the_exit_port() {
    let mut m = Machine::new(16, Vec::new());
    qemu_exit(&mut m, 7);
    assert_eq!(m.trace, vec![BusEvent::Out { port: 0x501, value: 7 }]);
    assert_eq!(QEMU_EXIT_PORT, 0x501);
    assert!(m.memory.iter().all(|b| *b == 0));
}

#[test]
fn kernel_greets_and_exits_with_code_zero() {
    let mut m = Machine::new(0x1000, Vec::new());
    main(&mut m);
    assert_eq!(m.memory[0x3F8], b'\n');
    let mut expected: Vec<BusEvent> = b"Hello, xv6 Rust!\n"
        .iter()
        .map(|b| BusEvent::Store { addr: 0x3F8, value: *b })
        .collect();
    expected.push(BusEvent::Out { port: 0x501, value: 0 });
    assert_eq!(m.trace, expected);
}
