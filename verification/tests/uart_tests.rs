use kvm_rust::mmio::{mmio_page, MmioAccess};
use kvm_rust::uart::{console_input_step, load_pl011_id_map, ConsoleAction, MmioEffect, UART};

const UART_BASE: u64 = 0x9000_000;

fn read(uart: &mut UART, reg: u64) -> (u32, MmioEffect) {
    let mut m = MmioAccess { phys_addr: UART_BASE + reg, data: [0xee; 8], len: 4, is_write: 0 };
    let e = uart.handle(&mut m);
    assert_eq!(&m.data[4..], &[0xee; 4]);
    (u32::from_le_bytes([m.data[0], m.data[1], m.data[2], m.data[3]]), e)
}

fn write(uart: &mut UART, reg: u64, val: u32) -> MmioEffect {
    let mut data = [0u8; 8];
    data[..4].copy_from_slice(&val.to_le_bytes());
    let mut m = MmioAccess { phys_addr: UART_BASE + reg, data, len: 4, is_write: 1 };
    let e = uart.handle(&mut m);
    assert_eq!(m.data, data);
    e
}

#[test]
fn pl011_id_map_has_the_identification_registers() {
    let m = load_pl011_id_map();
    assert_eq!(m.len(), 8);
    assert_eq!(m[&0xfe0], 0x11);
    assert_eq!(m[&0xfe4], 0x10);
    assert_eq!(m[&0xfe8], 0x14);
    assert_eq!(m[&0xfec], 0x00);
    assert_eq!(m[&0xff0], 0x0d);
    assert_eq!(m[&0xff4], 0xf0);
    assert_eq!(m[&0xff8], 0x05);
    assert_eq!(m[&0xffc], 0xb1);
}

#[test]
fn uart_reset_state() {
    let mut u = UART::new();
    assert_eq!(read(&mut u, 0x18).0, 0x90);
    assert_eq!(read(&mut u, 0x30).0, 0);
    assert_eq!(read(&mut u, 0x3c).0, 0);
    assert_eq!(read(&mut u, 0x44).0, 0);
    assert_eq!(u.update_irq(), 0);
}

#[test]
fn uart_identification_registers() {
    let mut u = UART::new();
    let ids = [(0xfe0, 0x11), (0xfe4, 0x10), (0xfe8, 0x14), (0xfec, 0x00), (0xff0, 0x0d), (0xff4, 0xf0), (0xff8, 0x05), (0xffc, 0xb1)];
    for (reg, val) in ids {
        let (v, e) = read(&mut u, reg);
        assert_eq!(v, val);
        assert!(e.irq_level.is_none() && e.output.is_none());
    }
}

#[test]
fn uart_registers_read_back_what_was_written() {
    let mut u = UART::new();
    for (reg, val) in [(0x24u64, 0x27u32), (0x28, 0x04), (0x2c, 0x70), (0x30, 0x301)] {
        let e = write(&mut u, reg, val);
        assert!(e.irq_level.is_none() && e.output.is_none());
        assert_eq!(read(&mut u, reg).0, val);
    }
    let e = write(&mut u, 0x38, 0x50);
    assert_eq!(e.irq_level, Some(0));
    assert_eq!(read(&mut u, 0x38).0, 0x50);
}

#[test]
fn uart_transmit_prints_first_byte() {
    let mut u = UART::new();
    let mut m = MmioAccess { phys_addr: UART_BASE, data: [b'A', 1, 2, 3, 4, 5, 6, 7], len: 1, is_write: 1 };
    let e = u.handle(&mut m);
    assert_eq!(e.output, Some(b'A'));
    assert_eq!(e.irq_level, None);
    assert_eq!(m.data, [b'A', 1, 2, 3, 4, 5, 6, 7]);
}

#[test]
fn uart_receive_raises_interrupt_and_read_consumes_character() {
    let mut u = UART::new();
    assert_eq!(write(&mut u, 0x38, 0x10).irq_level, Some(0));
    assert_eq!(u.send_char(b'z' as u32), 1);
    assert_eq!(read(&mut u, 0x18).0, 0x80);
    assert_eq!(read(&mut u, 0x3c).0, 0x10);
    assert_eq!(read(&mut u, 0x40).0, 0x10);
    let (ch, e) = read(&mut u, 0x0);
    assert_eq!(ch, b'z' as u32);
    assert_eq!(e.irq_level, Some(0));
    assert_eq!(read(&mut u, 0x18).0, 0x90);
    assert_eq!(read(&mut u, 0x3c).0, 0);
    assert_eq!(read(&mut u, 0x0).0, 0);
}

#[test]
fn uart_masked_receive_keeps_line_low() {
    let mut u = UART::new();
    assert_eq!(u.send_char(7), 0);
    assert_eq!(read(&mut u, 0x3c).0, 0x10);
    assert_eq!(read(&mut u, 0x40).0, 0);
    assert_eq!(write(&mut u, 0x38, 0x10).irq_level, Some(1));
}

#[test]
fn uart_interrupt_clear_clears_raw_status() {
    let mut u = UART::new();
    write(&mut u, 0x38, 0x10);
    u.send_char(1);
    assert_eq!(write(&mut u, 0x44, 0x10).irq_level, Some(0));
    assert_eq!(read(&mut u, 0x3c).0, 0);
    assert_eq!(read(&mut u, 0x0).0, 1);
}

#[test]
fn uart_unknown_register_reads_zero() {
    let mut u = UART::new();
    assert_eq!(read(&mut u, 0x100).0, 0);
    assert!(write(&mut u, 0x100, 5).irq_level.is_none());
}

#[test]
fn mmio_page_of_uart() {
    assert_eq!(mmio_page(0x9000_018), 0x9000);
    assert_eq!(mmio_page(0xfff), 0);
}

#[test]
fn console_plain_bytes_are_forwarded() {
    assert_eq!(console_input_step(false, b'a'), (false, ConsoleAction::Forward(b'a')));
    assert_eq!(console_input_step(false, b'x'), (false, ConsoleAction::Forward(b'x')));
}

#[test]
fn console_escape_sequences() {
    assert_eq!(console_input_step(false, 0x01), (true, ConsoleAction::Skip));
    assert_eq!(console_input_step(true, b'x'), (false, ConsoleAction::Quit));
    assert_eq!(console_input_step(true, 0x01), (false, ConsoleAction::Forward(0x01)));
    assert_eq!(console_input_step(true, b'q'), (false, ConsoleAction::Skip));
}
