use kvm_rust::arm64::{arm64_boot_plan, linux_header_from_bytes, Arm64BootError, ARM64_IMAGE_MAGIC, KERN_OFFS, LOAD_ADDR};
use kvm_rust::exits::{
    classify_exit, exit_control, pio_action, run_failure_control, vga_text_output, ExitKind, PioAction, RunControl,
};
use kvm_rust::guest_mem::{check_load_range, LoadError};
use kvm_rust::mmio::MmioAccess;

#[test]
fn arm64_header_fields() {
    let mut buf = [0u8; 64];
    buf[8..16].copy_from_slice(&0x80000u64.to_le_bytes());
    buf[16..24].copy_from_slice(&0x1234567u64.to_le_bytes());
    buf[56..60].copy_from_slice(b"ARM\x64");
    let h = linux_header_from_bytes(&buf);
    assert_eq!(h.text_offset, 0x80000);
    assert_eq!(h.image_size, 0x1234567);
    assert_eq!(h.magic, ARM64_IMAGE_MAGIC);
    assert_eq!(h.code0, 0);
}

#[test]
fn arm64_plan_requires_dtb() {
    assert!(matches!(arm64_boot_plan(false, true), Err(Arm64BootError::MissingDtb)));
}

#[test]
fn arm64_plan_layout() {
    let p = arm64_boot_plan(true, true).unwrap();
    assert_eq!(p.region_addr, 0x4000_0000);
    assert_eq!(p.region_size, 1024 * 1024 * 1024);
    assert_eq!(p.dtb_offset, 0);
    assert_eq!(p.initramfs_offset, Some(0x200_000));
    assert_eq!(p.kernel_offset, 0x400_000);
    let regs: Vec<(&str, u64)> = p.boot_regs.iter().map(|(n, v)| (n.as_str(), *v)).collect();
    assert_eq!(regs, vec![("x0", LOAD_ADDR), ("x1", 0), ("x2", 0), ("x3", 0), ("pc", LOAD_ADDR + KERN_OFFS)]);
    assert_eq!(p.vgic.device_type, 5);
    assert_eq!(p.vgic.dist_addr, 0x0800_0000);
    assert_eq!(p.vgic.cpu_addr, 0x0801_0000);
    assert_eq!(arm64_boot_plan(true, false).unwrap().initramfs_offset, None);
}

#[test]
fn load_range_checks() {
    assert_eq!(check_load_range(None, 0, 1), Err(LoadError::IndexOutOfRange));
    assert_eq!(check_load_range(Some(0x1000), 0x1000, 1), Err(LoadError::OffsetOutOfRange));
    assert_eq!(check_load_range(Some(0x1000), 0xfff, 2), Err(LoadError::DataTooLarge));
    assert_eq!(check_load_range(Some(0x1000), 0xfff, 1), Ok(0xfff));
    assert_eq!(check_load_range(Some(0x1000), 0, 0x1000), Ok(0));
}

#[test]
fn exit_reasons() {
    assert_eq!(classify_exit(2), ExitKind::Io);
    assert_eq!(classify_exit(5), ExitKind::Hlt);
    assert_eq!(classify_exit(6), ExitKind::Mmio);
    assert_eq!(classify_exit(8), ExitKind::Shutdown);
    assert_eq!(classify_exit(9), ExitKind::FailEntry);
    assert_eq!(classify_exit(17), ExitKind::InternalError);
    assert_eq!(classify_exit(0), ExitKind::Other);
}

#[test]
fn serial_port_responses() {
    assert_eq!(pio_action(1, 0x3f8), PioAction::Print);
    assert_eq!(pio_action(0, 0x3fd), PioAction::Fill(0x60));
    assert_eq!(pio_action(0, 0x3f8), PioAction::Fill(0x00));
    assert_eq!(pio_action(0, 0x3ff), PioAction::Fill(0x00));
    assert_eq!(pio_action(1, 0x3f9), PioAction::Ignore);
    assert_eq!(pio_action(1, 0x80), PioAction::Ignore);
    assert_eq!(pio_action(0, 0x400), PioAction::Fill(0xff));
    assert_eq!(pio_action(3, 0x3f8), PioAction::Fill(0xff));
}

#[test]
fn vga_text_buffer_writes() {
    let mut m = MmioAccess { phys_addr: 0xb8000, data: [b'H', 0x07, 0, 0, 0, 0, 0, 0], len: 2, is_write: 1 };
    assert_eq!(vga_text_output(&m), Some(b'H'));
    m.phys_addr = 0xb8001;
    assert_eq!(vga_text_output(&m), None);
    m.phys_addr = 0xb8ffe;
    assert_eq!(vga_text_output(&m), Some(b'H'));
    m.phys_addr = 0xb9000;
    assert_eq!(vga_text_output(&m), None);
    m.phys_addr = 0xb8000;
    m.is_write = 0;
    assert_eq!(vga_text_output(&m), None);
}

#[test]
fn run_loop_control_after_exits() {
    assert_eq!(exit_control(ExitKind::Io), RunControl::Continue);
    assert_eq!(exit_control(ExitKind::Mmio), RunControl::Continue);
    assert_eq!(exit_control(ExitKind::InternalError), RunControl::Fail);
    assert_eq!(exit_control(ExitKind::Hlt), RunControl::Stop);
    assert_eq!(exit_control(ExitKind::Shutdown), RunControl::Stop);
    assert_eq!(exit_control(ExitKind::FailEntry), RunControl::Stop);
    assert_eq!(exit_control(ExitKind::Other), RunControl::Stop);
}

#[test]
fn run_loop_control_after_run_failure() {
    assert_eq!(run_failure_control(true, false), RunControl::Continue);
    assert_eq!(run_failure_control(true, true), RunControl::Stop);
    assert_eq!(run_failure_control(false, true), RunControl::Fail);
    assert_eq!(run_failure_control(false, false), RunControl::Fail);
}
