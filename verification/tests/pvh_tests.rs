use kvm_rust::pvh::{
    align_up, linux_pvh_boot_plan, load_extent_of, pvh_boot_plan, pvh_layout_supported, try_pvh_entrypoint,
    BootError, ElfNote, ElfProgramHeader, PT_LOAD, XEN_HVM_START_MAGIC,
};

struct Phdr {
    p_type: u32,
    offset: u64,
    paddr: u64,
    filesz: u64,
    memsz: u64,
}

fn note(n_type: u32, desc: &[u8]) -> Vec<u8> {
    let mut v = Vec::new();
    v.extend_from_slice(&4u32.to_le_bytes());
    v.extend_from_slice(&(desc.len() as u32).to_le_bytes());
    v.extend_from_slice(&n_type.to_le_bytes());
    v.extend_from_slice(b"Xen\0");
    v.extend_from_slice(desc);
    while v.len() % 4 != 0 {
        v.push(0);
    }
    v
}

/// A little-endian ELF64 executable with the given program headers and a
/// `.notes` section holding `notes`.
fn elf_image(phdrs: &[Phdr], notes: &[u8]) -> Vec<u8> {
    let phoff = 64usize;
    let notes_off = phoff + 56 * phdrs.len();
    let shstrtab = b"\0.notes\0.shstrtab\0";
    let shstr_off = notes_off + notes.len();
    let mut shoff = shstr_off + shstrtab.len();
    while shoff % 8 != 0 {
        shoff += 1;
    }
    let mut v = Vec::new();
    v.extend_from_slice(&[0x7f, b'E', b'L', b'F', 2, 1, 1, 0, 0, 0, 0, 0, 0, 0, 0, 0]);
    v.extend_from_slice(&2u16.to_le_bytes());
    v.extend_from_slice(&0x3eu16.to_le_bytes());
    v.extend_from_slice(&1u32.to_le_bytes());
    v.extend_from_slice(&0x100000u64.to_le_bytes());
    v.extend_from_slice(&(phoff as u64).to_le_bytes());
    v.extend_from_slice(&(shoff as u64).to_le_bytes());
    v.extend_from_slice(&0u32.to_le_bytes());
    v.extend_from_slice(&64u16.to_le_bytes());
    v.extend_from_slice(&56u16.to_le_bytes());
    v.extend_from_slice(&(phdrs.len() as u16).to_le_bytes());
    v.extend_from_slice(&64u16.to_le_bytes());
    v.extend_from_slice(&3u16.to_le_bytes());
    v.extend_from_slice(&2u16.to_le_bytes());
    for p in phdrs {
        v.extend_from_slice(&p.p_type.to_le_bytes());
        v.extend_from_slice(&5u32.to_le_bytes());
        v.extend_from_slice(&p.offset.to_le_bytes());
        v.extend_from_slice(&p.paddr.to_le_bytes());
        v.extend_from_slice(&p.paddr.to_le_bytes());
        v.extend_from_slice(&p.filesz.to_le_bytes());
        v.extend_from_slice(&p.memsz.to_le_bytes());
        v.extend_from_slice(&0x1000u64.to_le_bytes());
    }
    v.extend_from_slice(notes);
    v.extend_from_slice(shstrtab);
    while v.len() < shoff {
        v.push(0);
    }
    let section = |v: &mut Vec<u8>, name: u32, ty: u32, off: usize, size: usize, align: u64| {
        v.extend_from_slice(&name.to_le_bytes());
        v.extend_from_slice(&ty.to_le_bytes());
        v.extend_from_slice(&0u64.to_le_bytes());
        v.extend_from_slice(&0u64.to_le_bytes());
        v.extend_from_slice(&(off as u64).to_le_bytes());
        v.extend_from_slice(&(size as u64).to_le_bytes());
        v.extend_from_slice(&0u32.to_le_bytes());
        v.extend_from_slice(&0u32.to_le_bytes());
        v.extend_from_slice(&align.to_le_bytes());
        v.extend_from_slice(&0u64.to_le_bytes());
    };
    section(&mut v, 0, 0, 0, 0, 0);
    section(&mut v, 1, 7, notes_off, notes.len(), 4);
    section(&mut v, 8, 3, shstr_off, shstrtab.len(), 1);
    v
}

fn sample_phdrs() -> Vec<Phdr> {
    vec![
        Phdr { p_type: 1, offset: 0x10, paddr: 0x200000, filesz: 0x20, memsz: 0x1000 },
        Phdr { p_type: 4, offset: 0, paddr: 0, filesz: 0, memsz: 0 },
        Phdr { p_type: 1, offset: 0, paddr: 0x100000, filesz: 0x10, memsz: 0x2000 },
    ]
}

fn le_fields(fields: &[(u64, usize)]) -> Vec<u8> {
    let mut v = Vec::new();
    for &(x, n) in fields {
        v.extend_from_slice(&x.to_le_bytes()[..n]);
    }
    v
}

#[test]
fn align_up_rounds_to_pages() {
    assert_eq!(align_up(0), 0);
    assert_eq!(align_up(1), 0x1000);
    assert_eq!(align_up(0x1000), 0x1000);
    assert_eq!(align_up(0x10038), 0x11000);
}

#[test]
fn pvh_entry_from_four_byte_note() {
    let notes = vec![
        ElfNote { n_type: 1, desc: vec![9, 9, 9, 9] },
        ElfNote { n_type: 18, desc: vec![0x78, 0x56, 0x34, 0x12] },
        ElfNote { n_type: 18, desc: vec![1, 0, 0, 0] },
    ];
    assert_eq!(try_pvh_entrypoint(&notes, true), Ok(0x1234_5678));
}

#[test]
fn pvh_entry_from_eight_byte_note() {
    let notes = vec![ElfNote { n_type: 18, desc: vec![1, 2, 3, 4, 5, 6, 7, 8] }];
    assert_eq!(try_pvh_entrypoint(&notes, false), Ok(0x0807_0605_0403_0201));
}

#[test]
fn pvh_entry_errors() {
    let odd = vec![ElfNote { n_type: 18, desc: vec![1, 2] }];
    assert_eq!(try_pvh_entrypoint(&odd, true), Err(BootError::UnexpectedPvhNoteSize(2)));
    let none = vec![ElfNote { n_type: 5, desc: vec![] }];
    assert_eq!(try_pvh_entrypoint(&none, true), Err(BootError::NoPvhEntry));
    assert_eq!(try_pvh_entrypoint(&none, false), Err(BootError::InvalidElf));
}

#[test]
fn pvh_plan_from_elf_image() {
    let elf = elf_image(&sample_phdrs(), &note(18, &0x0100_2000u32.to_le_bytes()));
    let plan = linux_pvh_boot_plan(&elf, Some(0x5000)).unwrap();
    assert_eq!(plan.pvh_entry, 0x0100_2000);
    assert_eq!(plan.regs.rip, 0x0100_2000);
    assert_eq!(plan.regs.rbx, 0x10000);
    assert_eq!(plan.regs.rflags, 0x2);
    assert_eq!(plan.kernel_region_addr, 0x100000);
    assert_eq!(plan.kernel_region_size, 0x4000_0000 - 0x100000);
    assert_eq!(plan.segments.len(), 2);
    assert_eq!((plan.segments[0].file_start, plan.segments[0].file_end, plan.segments[0].mem_offset), (0x10, 0x30, 0x100000));
    assert_eq!((plan.segments[1].file_start, plan.segments[1].file_end, plan.segments[1].mem_offset), (0, 0x10, 0));
    assert_eq!(plan.hvm_region_addr, 0);
    assert_eq!(plan.hvm_region_size, 0x100000);
    let initrd = plan.initrd.as_ref().unwrap();
    assert_eq!(initrd.cmdline_offset, 0x201000);
    assert_eq!(initrd.cmdline, vec![0u8]);
    assert_eq!(initrd.initramfs_offset, 0x102000);

    assert_eq!(plan.hvm_writes.len(), 4);
    assert_eq!(plan.hvm_writes[0].offset, 0x11000);
    assert_eq!(plan.hvm_writes[0].data, b"console=ttyS0,115200".to_vec());
    assert_eq!(plan.hvm_writes[1].offset, 0x12000);
    assert_eq!(
        plan.hvm_writes[1].data,
        le_fields(&[
            (0, 8), (0x10000, 8), (1, 4), (0, 4),
            (0x40000, 8), (0x5fc00, 8), (1, 4), (0, 4),
            (0x9fc00, 8), (0x60400, 8), (2, 4), (0, 4),
            (0x100000, 8), (0x4000_0000 - 0x100000, 8), (1, 4), (0, 4),
        ])
    );
    assert_eq!(plan.hvm_writes[2].offset, 0x13000);
    assert_eq!(plan.hvm_writes[2].data, le_fields(&[(0x202000, 8), (0x5000, 8), (0x201000, 8), (0, 8)]));
    assert_eq!(plan.hvm_writes[3].offset, 0x10000);
    assert_eq!(
        plan.hvm_writes[3].data,
        le_fields(&[
            (XEN_HVM_START_MAGIC as u64, 4), (1, 4), (0, 4), (1, 4),
            (0x13000, 8), (0x11000, 8), (0, 8), (0x12000, 8), (4, 4), (0, 4),
        ])
    );
    assert_eq!(&plan.hvm_writes[3].data[..4], &[b'x', b'E' | 0x80, b'n', b'3']);

    let s = plan.sregs;
    assert_eq!((s.cs.selector, s.cs.type_, s.cs.limit, s.cs.db, s.cs.s, s.cs.g, s.cs.present), (8, 0b1010, 0xffff_ffff, 1, 1, 1, 1));
    for d in [s.ds, s.es, s.fs, s.gs, s.ss] {
        assert_eq!((d.selector, d.type_, d.limit, d.db, d.g), (16, 0b0010, 0xffff_ffff, 1, 1));
    }
    assert_eq!((s.tr.selector, s.tr.type_, s.tr.limit, s.tr.s, s.tr.unusable), (24, 11, 0x67, 0, 0));
    assert_eq!((s.ldt.selector, s.ldt.unusable), (24, 1));
    assert_eq!((s.cr0, s.cr4), (1, 0));
}

#[test]
fn pvh_plan_without_initramfs_has_empty_module_list() {
    let elf = elf_image(&sample_phdrs(), &note(18, &[0, 0x10, 0, 0, 0, 0, 0, 0]));
    let plan = linux_pvh_boot_plan(&elf, None).unwrap();
    assert_eq!(plan.pvh_entry, 0x1000);
    assert!(plan.initrd.is_none());
    assert!(plan.hvm_writes[2].data.is_empty());
    assert_eq!(&plan.hvm_writes[3].data[12..16], &[0, 0, 0, 0]);
}

#[test]
fn pvh_plan_rejects_non_elf() {
    assert!(matches!(linux_pvh_boot_plan(b"not an elf file at all, just text", None), Err(BootError::InvalidElf)));
}

#[test]
fn pvh_plan_needs_entry_note() {
    let elf = elf_image(&sample_phdrs(), &note(3, &[1, 2, 3, 4]));
    assert!(matches!(linux_pvh_boot_plan(&elf, None), Err(BootError::NoPvhEntry)));
    let elf = elf_image(&sample_phdrs(), &note(18, &[1, 2, 3]));
    assert!(matches!(linux_pvh_boot_plan(&elf, None), Err(BootError::UnexpectedPvhNoteSize(3))));
}

#[test]
fn pvh_plan_rejects_kernel_above_one_gib() {
    let phdrs = vec![Phdr { p_type: 1, offset: 0, paddr: 0x8000_0000, filesz: 0x10, memsz: 0x10 }];
    let elf = elf_image(&phdrs, &note(18, &[0, 0, 0, 0]));
    assert!(matches!(linux_pvh_boot_plan(&elf, None), Err(BootError::UnsupportedLayout)));
}

#[test]
fn pvh_layout_checks() {
    let h = |p_type: u32, p_offset: u64, p_paddr: u64, p_filesz: u64, p_memsz: u64| ElfProgramHeader { p_type, p_offset, p_paddr, p_filesz, p_memsz };
    assert!(pvh_layout_supported(&vec![h(PT_LOAD, 0, 0x1000, 0x10, 0x10)], 0x10, None));
    assert!(!pvh_layout_supported(&vec![h(PT_LOAD, 0, 0x1000, 0x11, 0x10)], 0x10, None));
    assert!(!pvh_layout_supported(&vec![h(PT_LOAD, 0, u64::MAX, 0, 2)], 0x10, None));
    assert!(pvh_layout_supported(&vec![h(2, 0, u64::MAX, 0x100, 2)], 0x10, None));
    // A segment at address 0 followed by a higher one moves the start up past it.
    assert!(!pvh_layout_supported(&vec![h(PT_LOAD, 0, 0x2000, 0, 0), h(PT_LOAD, 0, 0, 0, 0), h(PT_LOAD, 0, 0x1000, 0, 0)], 0x10, None));
    assert!(!pvh_layout_supported(&vec![h(PT_LOAD, 0, 0x1000, 0, u64::MAX - 0x1000)], 0x10, Some(1)));
}

#[test]
fn pvh_plan_from_headers() {
    let headers = vec![ElfProgramHeader { p_type: PT_LOAD, p_offset: 0x1000, p_paddr: 0x1000000, p_filesz: 0x500, p_memsz: 0x800 }];
    let plan = pvh_boot_plan(&headers, 0x1500, 0x1000200, Some(0x10));
    assert_eq!(plan.kernel_region_addr, 0x1000000);
    assert_eq!(plan.segments[0].mem_offset, 0);
    assert_eq!((plan.segments[0].file_start, plan.segments[0].file_end), (0x1000, 0x1500));
    let initrd = plan.initrd.unwrap();
    assert_eq!(initrd.cmdline_offset, 0x1001000);
    assert_eq!(initrd.initramfs_offset, 0x2000);
}

#[test]
fn load_extent_spans_lowest_start_to_highest_end() {
    let h = |p_type: u32, p_paddr: u64, p_memsz: u64| ElfProgramHeader { p_type, p_offset: 0, p_paddr, p_filesz: 0, p_memsz };
    let hs = vec![h(PT_LOAD, 0x300000, 0x100), h(4, 0x10, 0x10), h(PT_LOAD, 0x100000, 0x400000), h(PT_LOAD, 0x200000, 0x10)];
    assert_eq!(load_extent_of(&hs), (0x100000, 0x500000));
    assert_eq!(load_extent_of(&vec![h(4, 0x10, 0x10)]), (0, 0));
}
