use object::read::elf::{ElfFile64, ProgramHeader, SectionHeader};
use object::{Endianness, Object, ObjectSection};
use vstd::prelude::*;

use crate::bytes::{le_bytes, le_value, read_le32, read_le64};

verus! {

broadcast use crate::bytes::lemma_le_bytes_len;

/// `x` rounded up to the next multiple of 4 KiB.
pub open spec fn align_up_spec(x: int) -> int {
    ((x + 0xfff) / 4096) * 4096
}

/// Rounds `x` up to a 4 KiB boundary, as `(x + 0xfff) & !0xfff`.
pub fn align_up(x: u64) -> (r: u64)
    requires
        x + 0xfff <= u64::MAX,
    ensures
        r == align_up_spec(x as int),
        r % 4096 == 0,
        x <= r < x + 4096,
{
    let y = x + 0xfff;
    let r = y & !0xfff;
    assert(y & !0xfffu64 == y - y % 4096) by (bit_vector);
    r
}

/// Appends the `n` low bytes of `x`, least significant first.
fn push_le(v: &mut Vec<u8>, x: u64, n: usize)
    requires
        n <= 8,
    ensures
        final(v)@ == old(v)@ + le_bytes(x as nat, n as nat),
    decreases n,
{
    if n == 0 {
        assert(old(v)@ + le_bytes(x as nat, 0) =~= old(v)@);
        return;
    }
    let ghost before = v@;
    v.push((x % 256) as u8);
    push_le(v, x / 256, n - 1);
    assert(before + le_bytes(x as nat, n as nat) =~= before.push((x % 256) as u8) + le_bytes(
        (x / 256) as nat,
        (n - 1) as nat,
    ));
}



/// One entry of the PVH memory map (`hvm_memmap_table_entry`).
#[derive(Clone, Copy)]
pub struct HvmMemmapEntry {
    pub addr: u64,
    pub size: u64,
    pub type_: u32,
    pub reserved: u32,
}

/// One entry of the PVH module list (`hvm_modlist_entry`).
#[derive(Clone, Copy)]
pub struct HvmModlistEntry {
    pub paddr: u64,
    pub size: u64,
    pub cmdline_paddr: u64,
    pub reserved: u64,
}

/// The PVH start-of-day structure (`hvm_start_info`).
#[derive(Clone, Copy)]
pub struct HvmStartInfo {
    pub magic: u32,
    pub version: u32,
    pub flags: u32,
    pub nr_modules: u32,
    pub modlist_paddr: u64,
    pub cmdline_paddr: u64,
    pub rsdp_paddr: u64,
    pub memmap_paddr: u64,
    pub memmap_entries: u32,
    pub reserved: u32,
}

/// The in-memory layout of a memory-map entry: its fields in order, little-endian.
pub open spec fn memmap_entry_bytes(e: HvmMemmapEntry) -> Seq<u8> {
    le_bytes(e.addr as nat, 8) + le_bytes(e.size as nat, 8) + le_bytes(e.type_ as nat, 4)
        + le_bytes(e.reserved as nat, 4)
}

/// The in-memory layout of a module-list entry: its fields in order, little-endian.
pub open spec fn modlist_entry_bytes(e: HvmModlistEntry) -> Seq<u8> {
    le_bytes(e.paddr as nat, 8) + le_bytes(e.size as nat, 8) + le_bytes(e.cmdline_paddr as nat, 8)
        + le_bytes(e.reserved as nat, 8)
}

/// The in-memory layout of the start-of-day structure: its fields in order,
/// little-endian, with no padding.
pub open spec fn start_info_bytes(i: HvmStartInfo) -> Seq<u8> {
    le_bytes(i.magic as nat, 4) + le_bytes(i.version as nat, 4) + le_bytes(i.flags as nat, 4)
        + le_bytes(i.nr_modules as nat, 4) + le_bytes(i.modlist_paddr as nat, 8) + le_bytes(
        i.cmdline_paddr as nat,
        8,
    ) + le_bytes(i.rsdp_paddr as nat, 8) + le_bytes(i.memmap_paddr as nat, 8) + le_bytes(
        i.memmap_entries as nat,
        4,
    ) + le_bytes(i.reserved as nat, 4)
}

/// The memory map laid out entry after entry.
pub open spec fn memmap_bytes(es: Seq<HvmMemmapEntry>) -> Seq<u8>
    decreases es.len(),
{
    if es.len() == 0 {
        Seq::empty()
    } else {
        memmap_bytes(es.drop_last()) + memmap_entry_bytes(es.last())
    }
}

/// The module list laid out entry after entry.
pub open spec fn modlist_bytes(es: Seq<HvmModlistEntry>) -> Seq<u8>
    decreases es.len(),
{
    if es.len() == 0 {
        Seq::empty()
    } else {
        modlist_bytes(es.drop_last()) + modlist_entry_bytes(es.last())
    }
}

pub proof fn lemma_memmap_bytes_len(es: Seq<HvmMemmapEntry>)
    ensures
        memmap_bytes(es).len() == 24 * es.len(),
    decreases es.len(),
{
    if es.len() > 0 {
        lemma_memmap_bytes_len(es.drop_last());
    }
}

pub proof fn lemma_modlist_bytes_len(es: Seq<HvmModlistEntry>)
    ensures
        modlist_bytes(es).len() == 32 * es.len(),
    decreases es.len(),
{
    if es.len() > 0 {
        lemma_modlist_bytes_len(es.drop_last());
    }
}

impl HvmMemmapEntry {
    pub fn to_bytes(&self, v: &mut Vec<u8>)
        ensures
            final(v)@ == old(v)@ + memmap_entry_bytes(*self),
    {
        let ghost before = v@;
        push_le(v, self.addr, 8);
        push_le(v, self.size, 8);
        push_le(v, self.type_ as u64, 4);
        push_le(v, self.reserved as u64, 4);
        assert(v@ =~= before + memmap_entry_bytes(*self));
    }
}

impl HvmModlistEntry {
    pub fn to_bytes(&self, v: &mut Vec<u8>)
        ensures
            final(v)@ == old(v)@ + modlist_entry_bytes(*self),
    {
        let ghost before = v@;
        push_le(v, self.paddr, 8);
        push_le(v, self.size, 8);
        push_le(v, self.cmdline_paddr, 8);
        push_le(v, self.reserved, 8);
        assert(v@ =~= before + modlist_entry_bytes(*self));
    }
}

impl HvmStartInfo {
    pub fn to_bytes(&self) -> (r: Vec<u8>)
        ensures
            r@ == start_info_bytes(*self),
    {
        let mut v: Vec<u8> = Vec::new();
        push_le(&mut v, self.magic as u64, 4);
        push_le(&mut v, self.version as u64, 4);
        push_le(&mut v, self.flags as u64, 4);
        push_le(&mut v, self.nr_modules as u64, 4);
        push_le(&mut v, self.modlist_paddr, 8);
        push_le(&mut v, self.cmdline_paddr, 8);
        push_le(&mut v, self.rsdp_paddr, 8);
        push_le(&mut v, self.memmap_paddr, 8);
        push_le(&mut v, self.memmap_entries as u64, 4);
        push_le(&mut v, self.reserved as u64, 4);
        assert(v@ =~= start_info_bytes(*self));
        v
    }
}

/// Lays out a memory map entry after entry.
pub fn memmap_to_bytes(es: &Vec<HvmMemmapEntry>) -> (r: Vec<u8>)
    ensures
        r@ == memmap_bytes(es@),
{
    let mut v: Vec<u8> = Vec::new();
    let mut i: usize = 0;
    while i < es.len()
        invariant
            i <= es@.len(),
            v@ == memmap_bytes(es@.subrange(0, i as int)),
        decreases es@.len() - i,
    {
        proof {
            assert(es@.subrange(0, i + 1).drop_last() =~= es@.subrange(0, i as int));
        }
        es[i].to_bytes(&mut v);
        i = i + 1;
    }
    assert(es@.subrange(0, es@.len() as int) =~= es@);
    v
}

/// Lays out a module list entry after entry.
pub fn modlist_to_bytes(es: &Vec<HvmModlistEntry>) -> (r: Vec<u8>)
    ensures
        r@ == modlist_bytes(es@),
{
    let mut v: Vec<u8> = Vec::new();
    let mut i: usize = 0;
    while i < es.len()
        invariant
            i <= es@.len(),
            v@ == modlist_bytes(es@.subrange(0, i as int)),
        decreases es@.len() - i,
    {
        proof {
            assert(es@.subrange(0, i + 1).drop_last() =~= es@.subrange(0, i as int));
        }
        es[i].to_bytes(&mut v);
        i = i + 1;
    }
    assert(es@.subrange(0, es@.len() as int) =~= es@);
    v
}


/// The fields of an ELF64 program header that booting looks at.
#[derive(Clone, Copy)]
pub struct ElfProgramHeader {
    pub p_type: u32,
    pub p_offset: u64,
    pub p_paddr: u64,
    pub p_filesz: u64,
    pub p_memsz: u64,
}

/// `PT_LOAD`: a segment to be loaded into memory.
pub const PT_LOAD: u32 = 1;

/// The guest RAM that a PVH kernel is booted with: 1 GiB.
pub const PVH_RAM_SIZE: u64 = 0x4000_0000;

pub open spec fn is_load(h: ElfProgramHeader) -> bool {
    h.p_type == PT_LOAD
}

/// No loadable segment ends beyond the 64-bit address space.
pub open spec fn load_ends_fit(hs: Seq<ElfProgramHeader>) -> bool {
    forall|i: int|
        0 <= i < hs.len() && is_load(#[trigger] hs[i]) ==> hs[i].p_paddr + hs[i].p_memsz
            <= u64::MAX
}

/// The load range of the image, scanning the loadable segments in order:
/// the start is replaced by a segment's physical address when it is still 0
/// or when the segment starts lower; the end is the highest segment end.
pub open spec fn load_extent(hs: Seq<ElfProgramHeader>) -> (u64, u64)
    decreases hs.len(),
{
    if hs.len() == 0 {
        (0, 0)
    } else {
        let (s, e) = load_extent(hs.drop_last());
        let h = hs.last();
        if !is_load(h) {
            (s, e)
        } else {
            let s2 = if s == 0 || h.p_paddr < s {
                h.p_paddr
            } else {
                s
            };
            let e2 = if h.p_paddr + h.p_memsz > e {
                (h.p_paddr + h.p_memsz) as u64
            } else {
                e
            };
            (s2, e2)
        }
    }
}

/// Whether some program header describes a loadable segment.
pub open spec fn has_load(hs: Seq<ElfProgramHeader>) -> bool {
    exists|i: int| 0 <= i < hs.len() && is_load(#[trigger] hs[i])
}

/// When no loadable segment starts at address 0, the load range runs from
/// the lowest start address of a loadable segment to the highest end of one;
/// without loadable segments it is empty at 0.
pub proof fn lemma_load_extent_bounds(hs: Seq<ElfProgramHeader>)
    requires
        load_ends_fit(hs),
        forall|i: int| 0 <= i < hs.len() && is_load(#[trigger] hs[i]) ==> hs[i].p_paddr != 0,
    ensures
        !has_load(hs) ==> load_extent(hs) == (0u64, 0u64),
        has_load(hs) ==> {
            &&& forall|i: int|
                0 <= i < hs.len() && is_load(#[trigger] hs[i]) ==> load_extent(hs).0 <= hs[i].p_paddr
                    && hs[i].p_paddr + hs[i].p_memsz <= load_extent(hs).1
            &&& exists|i: int|
                0 <= i < hs.len() && is_load(#[trigger] hs[i]) && load_extent(hs).0 == hs[i].p_paddr
            &&& exists|i: int|
                0 <= i < hs.len() && is_load(#[trigger] hs[i]) && load_extent(hs).1 == hs[i].p_paddr
                    + hs[i].p_memsz
        },
    decreases hs.len(),
{
    if hs.len() > 0 {
        let p = hs.drop_last();
        let n = hs.len() - 1;
        let h = hs.last();
        assert forall|i: int| 0 <= i < p.len() implies p[i] == hs[i] by {}
        assert(load_ends_fit(p)) by {
            assert forall|i: int| 0 <= i < p.len() && is_load(#[trigger] p[i]) implies p[i].p_paddr
                + p[i].p_memsz <= u64::MAX by {
                assert(p[i] == hs[i]);
            }
        }
        assert forall|i: int| 0 <= i < p.len() && is_load(#[trigger] p[i]) implies p[i].p_paddr
            != 0 by {
            assert(p[i] == hs[i]);
        }
        lemma_load_extent_bounds(p);
        assert(hs[n] == h);
        if has_load(p) {
            let w = choose|i: int| 0 <= i < p.len() && is_load(#[trigger] p[i]);
            assert(hs[w] == p[w]);
            assert(has_load(hs));
            let ws = choose|i: int|
                0 <= i < p.len() && is_load(#[trigger] p[i]) && load_extent(p).0 == p[i].p_paddr;
            let we = choose|i: int|
                0 <= i < p.len() && is_load(#[trigger] p[i]) && load_extent(p).1 == p[i].p_paddr
                    + p[i].p_memsz;
            assert(hs[ws] == p[ws]);
            assert(hs[we] == p[we]);
            assert(load_extent(p).0 != 0);
        } else if is_load(h) {
            assert forall|i: int| 0 <= i < hs.len() && is_load(#[trigger] hs[i]) implies i == n by {
                if i < n {
                    assert(p[i] == hs[i]);
                }
            }
        } else {
            assert(!has_load(hs)) by {
                assert forall|i: int| 0 <= i < hs.len() implies !is_load(#[trigger] hs[i]) by {
                    if i < n {
                        assert(p[i] == hs[i]);
                    }
                }
            }
        }
    }
}

/// Computes the load range of the image (see [`load_extent`]).
pub fn load_extent_of(headers: &Vec<ElfProgramHeader>) -> (r: (u64, u64))
    requires
        load_ends_fit(headers@),
    ensures
        r == load_extent(headers@),
        r.0 <= r.1,
{
    let mut addr_start: u64 = 0x0;
    let mut addr_end: u64 = 0x0;
    let mut i: usize = 0;
    while i < headers.len()
        invariant
            i <= headers@.len(),
            load_ends_fit(headers@),
            (addr_start, addr_end) == load_extent(headers@.subrange(0, i as int)),
            addr_start <= addr_end,
        decreases headers@.len() - i,
    {
        proof {
            assert(headers@.subrange(0, i + 1).drop_last() =~= headers@.subrange(0, i as int));
            assert(headers@.subrange(0, i + 1).last() == headers@[i as int]);
        }
        let ph = headers[i];
        if ph.p_type == PT_LOAD {
            let paddr = ph.p_paddr;
            let size = ph.p_memsz;
            if addr_start == 0 || paddr < addr_start {
                addr_start = paddr;
            }
            if paddr + size > addr_end {
                addr_end = paddr + size;
            }
        }
        i = i + 1;
    }
    assert(headers@.subrange(0, headers@.len() as int) =~= headers@);
    (addr_start, addr_end)
}

/// Where to copy one loadable segment: the file bytes
/// `file_start..file_end` go to offset `mem_offset` of the kernel's region.
#[derive(Clone, Copy)]
pub struct SegmentLoad {
    pub file_start: usize,
    pub file_end: usize,
    pub mem_offset: u64,
}

/// The copies that load every loadable segment, in header order, into a
/// region that starts at guest address `start`.
pub open spec fn load_segments(hs: Seq<ElfProgramHeader>, start: u64) -> Seq<SegmentLoad>
    decreases hs.len(),
{
    if hs.len() == 0 {
        Seq::empty()
    } else {
        let prev = load_segments(hs.drop_last(), start);
        let h = hs.last();
        if is_load(h) {
            prev.push(
                SegmentLoad {
                    file_start: h.p_offset as usize,
                    file_end: (h.p_offset + h.p_filesz) as usize,
                    mem_offset: (h.p_paddr - start) as u64,
                },
            )
        } else {
            prev
        }
    }
}

/// Every loadable segment's file bytes lie within the image.
pub open spec fn segments_in_file(hs: Seq<ElfProgramHeader>, data_len: nat) -> bool {
    forall|i: int|
        0 <= i < hs.len() && is_load(#[trigger] hs[i]) ==> hs[i].p_offset + hs[i].p_filesz
            <= data_len
}

/// Every loadable segment starts at or above `start`.
pub open spec fn segments_above(hs: Seq<ElfProgramHeader>, start: u64) -> bool {
    forall|i: int| 0 <= i < hs.len() && is_load(#[trigger] hs[i]) ==> hs[i].p_paddr >= start
}

/// Computes the copies that load the image's segments (see [`load_segments`]).
pub fn kernel_segments(headers: &Vec<ElfProgramHeader>, data_len: usize, start: u64) -> (r: Vec<
    SegmentLoad,
>)
    requires
        segments_in_file(headers@, data_len as nat),
        segments_above(headers@, start),
    ensures
        r@ == load_segments(headers@, start),
{
    let mut v: Vec<SegmentLoad> = Vec::new();
    let mut i: usize = 0;
    while i < headers.len()
        invariant
            i <= headers@.len(),
            segments_in_file(headers@, data_len as nat),
            segments_above(headers@, start),
            v@ == load_segments(headers@.subrange(0, i as int), start),
        decreases headers@.len() - i,
    {
        proof {
            assert(headers@.subrange(0, i + 1).drop_last() =~= headers@.subrange(0, i as int));
            assert(headers@.subrange(0, i + 1).last() == headers@[i as int]);
        }
        let ph = headers[i];
        if ph.p_type == PT_LOAD {
            let elf_start_ofs = ph.p_offset as usize;
            let elf_end_ofs = elf_start_ofs + ph.p_filesz as usize;
            let linux_mem_ofs = ph.p_paddr - start;
            v.push(
                SegmentLoad {
                    file_start: elf_start_ofs,
                    file_end: elf_end_ofs,
                    mem_offset: linux_mem_ofs,
                },
            );
        }
        i = i + 1;
    }
    assert(headers@.subrange(0, headers@.len() as int) =~= headers@);
    v
}


/// A segment register as KVM describes it (`kvm_segment`).
#[derive(Clone, Copy)]
pub struct SegmentDescriptor {
    pub base: u64,
    pub limit: u32,
    pub selector: u16,
    pub type_: u8,
    pub present: u8,
    pub dpl: u8,
    pub db: u8,
    pub s: u8,
    pub l: u8,
    pub g: u8,
    pub avl: u8,
    pub unusable: u8,
    pub padding: u8,
}

/// The general-purpose registers the PVH entry point expects.
#[derive(Clone, Copy)]
pub struct PvhRegisters {
    pub rip: u64,
    pub rbx: u64,
    pub rflags: u64,
}

/// The segment and control registers the PVH entry point expects: 32-bit
/// protected mode with flat code and data segments and paging off.
#[derive(Clone, Copy)]
pub struct PvhSegments {
    pub cs: SegmentDescriptor,
    pub ds: SegmentDescriptor,
    pub es: SegmentDescriptor,
    pub fs: SegmentDescriptor,
    pub gs: SegmentDescriptor,
    pub ss: SegmentDescriptor,
    pub tr: SegmentDescriptor,
    pub ldt: SegmentDescriptor,
    pub cr0: u64,
    pub cr4: u64,
}

/// Flat 4 GiB execute/read code segment, selector 0x8.
pub open spec fn pvh_code_segment() -> SegmentDescriptor {
    SegmentDescriptor {
        base: 0,
        limit: 0xffff_ffff,
        selector: 0x8,
        type_: 0b1010,
        present: 1,
        dpl: 0,
        db: 1,
        s: 1,
        l: 0,
        g: 1,
        avl: 0,
        unusable: 0,
        padding: 0,
    }
}

/// Flat 4 GiB read/write data segment, selector 0x10.
pub open spec fn pvh_data_segment() -> SegmentDescriptor {
    SegmentDescriptor { selector: 0x10, type_: 0b0010, ..pvh_code_segment() }
}

/// Busy 32-bit TSS, selector 0x18.
pub open spec fn pvh_task_segment() -> SegmentDescriptor {
    SegmentDescriptor {
        base: 0,
        limit: 0x67,
        selector: 0x18,
        type_: 11,
        s: 0,
        present: 1,
        dpl: 0,
        db: 0,
        l: 0,
        g: 0,
        avl: 0,
        unusable: 0,
        padding: 0,
    }
}

pub open spec fn pvh_segments_spec() -> PvhSegments {
    PvhSegments {
        cs: pvh_code_segment(),
        ds: pvh_data_segment(),
        es: pvh_data_segment(),
        fs: pvh_data_segment(),
        gs: pvh_data_segment(),
        ss: pvh_data_segment(),
        tr: pvh_task_segment(),
        ldt: SegmentDescriptor { unusable: 1, ..pvh_task_segment() },
        cr0: 0x1,
        cr4: 0x0,
    }
}

/// The segment and control registers for the PVH entry point.
pub fn pvh_segments() -> (r: PvhSegments)
    ensures
        r == pvh_segments_spec(),
{
    let code = SegmentDescriptor {
        base: 0,
        limit: 0xffff_ffff,
        selector: 1 << 3,
        type_: 0b1010,
        present: 1,
        dpl: 0,
        db: 1,
        s: 1,
        l: 0,
        g: 1,
        avl: 0,
        unusable: 0,
        padding: 0,
    };
    let data = SegmentDescriptor { selector: 2 << 3, type_: 0b0010, ..code };
    let tr = SegmentDescriptor {
        base: 0,
        limit: 0x67,
        selector: 3 << 3,
        type_: 11,
        s: 0,
        present: 1,
        dpl: 0,
        db: 0,
        l: 0,
        g: 0,
        avl: 0,
        unusable: 0,
        padding: 0,
    };
    assert((1u16 << 3u16) == 8 && (2u16 << 3u16) == 16 && (3u16 << 3u16) == 24) by (bit_vector);
    PvhSegments {
        cs: code,
        ds: data,
        es: data,
        fs: data,
        gs: data,
        ss: data,
        tr,
        ldt: SegmentDescriptor { unusable: 1, ..tr },
        cr0: 0x1,
        cr4: 0x0,
    }
}


/// Where the PVH start-of-day structure is placed.
pub const HVM_BASE: u64 = 0x10000;

/// How much room is kept free after `HVM_BASE` for the boot structures.
pub const HVM_RESERVED_SIZE: u64 = 0x30000;

/// Size of the low region that holds the PVH boot structures: 1 MiB at 0.
pub const HVM_REGION_SIZE: usize = 0x100000;

/// Size of `hvm_start_info` in guest memory.
pub const HVM_START_INFO_SIZE: u64 = 56;

/// `XEN_HVM_START_MAGIC_VALUE`, the bytes `x`, `E` | 0x80, `n`, `3` read as a little-endian `u32`.
pub const XEN_HVM_START_MAGIC: u32 = 0x336ec578;

/// The kernel command line: `console=ttyS0,115200`.
pub open spec fn pvh_cmdline() -> Seq<u8> {
    seq![
        0x63u8, 0x6fu8, 0x6eu8, 0x73u8, 0x6fu8, 0x6cu8, 0x65u8, 0x3du8, 0x74u8, 0x74u8,
        0x79u8, 0x53u8, 0x30u8, 0x2cu8, 0x31u8, 0x31u8, 0x35u8, 0x32u8, 0x30u8, 0x30u8,
    ]
}

/// The memory map handed to the guest: low RAM below the boot structures,
/// RAM from the end of the reserved area up to the EBDA, the reserved
/// EBDA/ROM hole, and the kernel's RAM from `start` up to 1 GiB.
pub open spec fn pvh_memmap(start: u64) -> Seq<HvmMemmapEntry> {
    seq![
        HvmMemmapEntry { addr: 0x0, size: HVM_BASE, type_: 1, reserved: 0 },
        HvmMemmapEntry { addr: (HVM_BASE + HVM_RESERVED_SIZE) as u64, size: 0x5fc00, type_: 1, reserved: 0 },
        HvmMemmapEntry { addr: 0x9fc00, size: 0x60400, type_: 2, reserved: 0 },
        HvmMemmapEntry { addr: start, size: (PVH_RAM_SIZE - start) as u64, type_: 1, reserved: 0 },
    ]
}

/// Where the initramfs command line (a single NUL) goes: the first 4 KiB
/// boundary at or after the end of the kernel image.
pub open spec fn initrd_cmdline_start(end: u64) -> int {
    align_up_spec(end as int)
}

/// Where the initramfs goes: the first 4 KiB boundary after its command line.
pub open spec fn initrd_start(end: u64) -> int {
    align_up_spec(initrd_cmdline_start(end) + 1)
}

/// The module list: the initramfs, when there is one.
pub open spec fn pvh_modlist(end: u64, initramfs_len: Option<u64>) -> Seq<HvmModlistEntry> {
    match initramfs_len {
        None => Seq::empty(),
        Some(n) => seq![
            HvmModlistEntry {
                paddr: initrd_start(end) as u64,
                size: n,
                cmdline_paddr: initrd_cmdline_start(end) as u64,
                reserved: 0,
            },
        ],
    }
}

/// Where the kernel command line, the memory map and the module list go:
/// each at the first 4 KiB boundary after what precedes it.
pub open spec fn cmdline_start() -> int {
    align_up_spec(HVM_BASE + HVM_START_INFO_SIZE)
}

pub open spec fn memmap_start() -> int {
    align_up_spec(cmdline_start() + 20)
}

pub open spec fn modlist_start() -> int {
    align_up_spec(memmap_start() + 4 * 24)
}

/// The start-of-day structure for a module list of `nr_modules` entries.
pub open spec fn pvh_start_info(nr_modules: u32) -> HvmStartInfo {
    HvmStartInfo {
        magic: XEN_HVM_START_MAGIC,
        version: 1,
        flags: 0,
        nr_modules,
        modlist_paddr: modlist_start() as u64,
        cmdline_paddr: cmdline_start() as u64,
        rsdp_paddr: 0,
        memmap_paddr: memmap_start() as u64,
        memmap_entries: 4,
        reserved: 0,
    }
}

/// The writes into the boot-structure region, in the order they are made:
/// command line, memory map, module list, start-of-day structure.
pub open spec fn pvh_hvm_writes(start: u64, end: u64, initramfs_len: Option<u64>) -> Seq<(u64, Seq<u8>)> {
    seq![
        (cmdline_start() as u64, pvh_cmdline()),
        (memmap_start() as u64, memmap_bytes(pvh_memmap(start))),
        (modlist_start() as u64, modlist_bytes(pvh_modlist(end, initramfs_len))),
        (HVM_BASE, start_info_bytes(pvh_start_info(pvh_modlist(end, initramfs_len).len() as u32))),
    ]
}

/// The inputs on which the boot layout is defined: segment ends fit in 64
/// bits, the kernel starts below 1 GiB, every loadable segment's bytes are in
/// the file and start at or above the kernel's start, and the initramfs
/// placement fits in 64 bits.
pub open spec fn pvh_plan_defined(
    hs: Seq<ElfProgramHeader>,
    data_len: nat,
    initramfs_len: Option<u64>,
) -> bool {
    &&& load_ends_fit(hs)
    &&& load_extent(hs).0 <= PVH_RAM_SIZE
    &&& segments_in_file(hs, data_len)
    &&& segments_above(hs, load_extent(hs).0)
    &&& initramfs_len is Some ==> {
        &&& load_extent(hs).1 + 0xfff <= u64::MAX
        &&& initrd_cmdline_start(load_extent(hs).1) + 1 + 0xfff <= u64::MAX
    }
}

/// A write of `data` at `offset` into a guest memory region.
pub struct MemoryWrite {
    pub offset: u64,
    pub data: Vec<u8>,
}

/// Where the initramfs goes in the kernel's region: its one-byte command
/// line (a NUL) is written at offset `cmdline_offset`, the file at
/// `initramfs_offset`.
///
/// `cmdline_offset` is the guest address that the module list records for
/// the command line, used as an offset into the kernel's region, which
/// starts at the kernel's load address; `initramfs_offset` is the
/// initramfs's guest address less that load address.
pub struct InitrdPlacement {
    pub cmdline_offset: u64,
    pub cmdline: Vec<u8>,
    pub initramfs_offset: u64,
}

/// Everything needed to boot an x86-64 kernel through its PVH entry point:
/// the two guest memory regions to create, what to copy into them, and the
/// initial register state.
pub struct PvhBootPlan {
    pub pvh_entry: u64,
    /// The kernel's region: from the kernel's load address up to 1 GiB.
    pub kernel_region_size: usize,
    pub kernel_region_addr: u64,
    pub segments: Vec<SegmentLoad>,
    /// The region that holds the boot structures.
    pub hvm_region_size: usize,
    pub hvm_region_addr: u64,
    pub initrd: Option<InitrdPlacement>,
    pub hvm_writes: Vec<MemoryWrite>,
    pub regs: PvhRegisters,
    pub sregs: PvhSegments,
}

/// The plan booting the image described by `hs` at `entry` is.
pub open spec fn pvh_plan_matches(
    plan: PvhBootPlan,
    hs: Seq<ElfProgramHeader>,
    entry: u64,
    initramfs_len: Option<u64>,
) -> bool {
    let (start, end) = load_extent(hs);
    &&& plan.pvh_entry == entry
    &&& plan.kernel_region_size == PVH_RAM_SIZE - start
    &&& plan.kernel_region_addr == start
    &&& plan.segments@ == load_segments(hs, start)
    &&& plan.hvm_region_size == HVM_REGION_SIZE
    &&& plan.hvm_region_addr == 0
    &&& match initramfs_len {
        None => plan.initrd is None,
        Some(_) => plan.initrd matches Some(p) && p.cmdline_offset == initrd_cmdline_start(end)
            && p.cmdline@ == seq![0u8] && p.initramfs_offset == initrd_start(end) - start,
    }
    &&& plan.hvm_writes@.len() == 4
    &&& forall|i: int|
        0 <= i < 4 ==> (#[trigger] plan.hvm_writes@[i]).offset == pvh_hvm_writes(
            start,
            end,
            initramfs_len,
        )[i].0 && plan.hvm_writes@[i].data@ == pvh_hvm_writes(start, end, initramfs_len)[i].1
    &&& plan.regs == PvhRegisters { rip: entry, rbx: HVM_BASE, rflags: 0x2 }
    &&& plan.sregs == pvh_segments_spec()
}

/// Lays out a PVH boot of the image whose program headers are `headers`,
/// whose file is `data_len` bytes long, whose PVH entry point is `pvh_entry`,
/// with an initramfs of `initramfs_len` bytes if there is one.
pub fn pvh_boot_plan(
    headers: &Vec<ElfProgramHeader>,
    data_len: usize,
    pvh_entry: u64,
    initramfs_len: Option<u64>,
) -> (plan: PvhBootPlan)
    requires
        pvh_plan_defined(headers@, data_len as nat, initramfs_len),
    ensures
        pvh_plan_matches(plan, headers@, pvh_entry, initramfs_len),
{
    let (addr_start, addr_end) = load_extent_of(headers);
    let ram_size: u64 = PVH_RAM_SIZE;
    let kernel_region_size = (ram_size - addr_start) as usize;
    let segments = kernel_segments(headers, data_len, addr_start);

    let mut modlist_entries: Vec<HvmModlistEntry> = Vec::new();
    let hvm_base: u64 = HVM_BASE;
    let hvm_reserved_size: u64 = HVM_RESERVED_SIZE;

    let initrd = match initramfs_len {
        Some(initramfs_size) => {
            let initrd_cmdline: Vec<u8> = vec![0u8];
            assert(initrd_cmdline@ =~= seq![0u8]);
            let initrd_cmdline_start = align_up(addr_end);
            let initrd_start = align_up((initrd_cmdline.len() as u64) + initrd_cmdline_start);
            modlist_entries.push(
                HvmModlistEntry {
                    paddr: initrd_start,
                    size: initramfs_size,
                    cmdline_paddr: initrd_cmdline_start,
                    reserved: 0u64,
                },
            );
            Some(
                InitrdPlacement {
                    cmdline_offset: initrd_cmdline_start,
                    cmdline: initrd_cmdline,
                    initramfs_offset: initrd_start - addr_start,
                },
            )
        },
        None => None,
    };

    let low_ram_end = hvm_base + hvm_reserved_size;
    let kernel_ram_size = ram_size - addr_start;
    let memmap_entries: Vec<HvmMemmapEntry> = vec![
        HvmMemmapEntry { addr: 0x0, size: hvm_base, type_: 1, reserved: 0 },
        HvmMemmapEntry { addr: low_ram_end, size: 0x5fc00, type_: 1, reserved: 0 },
        HvmMemmapEntry { addr: 0x9fc00, size: 0x60400, type_: 2, reserved: 0 },
        HvmMemmapEntry { addr: addr_start, size: kernel_ram_size, type_: 1, reserved: 0 },
    ];
    assert(memmap_entries@ =~= pvh_memmap(addr_start));
    assert(modlist_entries@ =~= pvh_modlist(addr_end, initramfs_len));

    let cmdline: Vec<u8> = vec![
        0x63u8, 0x6fu8, 0x6eu8, 0x73u8, 0x6fu8, 0x6cu8, 0x65u8, 0x3du8, 0x74u8, 0x74u8,
        0x79u8, 0x53u8, 0x30u8, 0x2cu8, 0x31u8, 0x31u8, 0x35u8, 0x32u8, 0x30u8, 0x30u8,
    ];
    let cmdline_start = align_up(hvm_base + HVM_START_INFO_SIZE);
    let cmdline_size = cmdline.len() as u64;

    let memmap_start = align_up(cmdline_start + cmdline_size);
    let memmap_size = memmap_entries.len() * 24;
    let memmap_buf = memmap_to_bytes(&memmap_entries);

    let modlist_start = align_up(memmap_start + memmap_size as u64);
    let modlist_buf = modlist_to_bytes(&modlist_entries);

    let hvm_start_info = HvmStartInfo {
        magic: XEN_HVM_START_MAGIC,
        version: 1u32,
        flags: 0u32,
        nr_modules: modlist_entries.len() as u32,
        modlist_paddr: modlist_start,
        cmdline_paddr: cmdline_start,
        rsdp_paddr: 0u64,
        memmap_paddr: memmap_start,
        memmap_entries: memmap_entries.len() as u32,
        reserved: 0u32,
    };
    let start_info_buf = hvm_start_info.to_bytes();

    let mut hvm_writes: Vec<MemoryWrite> = Vec::new();
    hvm_writes.push(MemoryWrite { offset: cmdline_start, data: cmdline });
    hvm_writes.push(MemoryWrite { offset: memmap_start, data: memmap_buf });
    hvm_writes.push(MemoryWrite { offset: modlist_start, data: modlist_buf });
    hvm_writes.push(MemoryWrite { offset: hvm_base, data: start_info_buf });

    let plan = PvhBootPlan {
        pvh_entry,
        kernel_region_size,
        kernel_region_addr: addr_start,
        segments,
        hvm_region_size: HVM_REGION_SIZE,
        hvm_region_addr: 0x0,
        initrd,
        hvm_writes,
        regs: PvhRegisters { rip: pvh_entry, rbx: hvm_base, rflags: 0x2 },
        sregs: pvh_segments(),
    };
    plan
}


/// The boot structures are written inside the boot region without
/// overlapping one another; the command line, memory map and module list
/// start on 4 KiB boundaries; and the start-of-day structure points at each
/// of them and counts their entries.
pub proof fn lemma_pvh_boot_structures_layout(start: u64, end: u64, initramfs_len: Option<u64>)
    ensures
        ({
            let w = pvh_hvm_writes(start, end, initramfs_len);
            let info = pvh_start_info(pvh_modlist(end, initramfs_len).len() as u32);
            &&& forall|i: int| 0 <= i < 4 ==> #[trigger] w[i].0 + w[i].1.len() <= HVM_REGION_SIZE
            &&& forall|i: int, j: int|
                0 <= i < j < 4 ==> #[trigger] w[i].0 + w[i].1.len() <= #[trigger] w[j].0 || w[j].0
                    + w[j].1.len() <= w[i].0
            &&& w[0].0 % 4096 == 0 && w[1].0 % 4096 == 0 && w[2].0 % 4096 == 0
            &&& info.cmdline_paddr == w[0].0
            &&& info.memmap_paddr == w[1].0
            &&& info.modlist_paddr == w[2].0
            &&& w[3].0 == HVM_BASE
            &&& w[1].1.len() == 24 * info.memmap_entries
            &&& w[2].1.len() == 32 * info.nr_modules
            &&& w[3].1.len() == HVM_START_INFO_SIZE
        }),
{
    let w = pvh_hvm_writes(start, end, initramfs_len);
    lemma_memmap_bytes_len(pvh_memmap(start));
    lemma_modlist_bytes_len(pvh_modlist(end, initramfs_len));
    assert(cmdline_start() == 0x11000);
    assert(memmap_start() == 0x12000);
    assert(modlist_start() == 0x13000);
    assert(pvh_cmdline().len() == 20);
    assert(w[2].1.len() <= 32);
}

/// The initramfs's command line and the initramfs itself start on 4 KiB
/// boundaries at or after the end of the kernel image, the initramfs after
/// its command line.
pub proof fn lemma_pvh_initrd_placement(end: u64)
    ensures
        initrd_cmdline_start(end) % 4096 == 0,
        end <= initrd_cmdline_start(end) < end + 4096,
        initrd_start(end) % 4096 == 0,
        initrd_cmdline_start(end) < initrd_start(end),
{
}


/// Why a kernel image cannot be booted through its PVH entry point.
#[derive(Debug, Clone, Copy, PartialEq, Eq)]
pub enum BootError {
    /// The file is not an ELF64 image that can be read.
    InvalidElf,
    /// The image has no `.notes` note section.
    MissingNotes,
    /// No `XEN_ELFNOTE_PHYS32_ENTRY` note was found.
    NoPvhEntry,
    /// The entry-point note's descriptor is neither 4 nor 8 bytes long.
    UnexpectedPvhNoteSize(usize),
    /// The image's segments cannot be laid out below 1 GiB.
    UnsupportedLayout,
}

/// One ELF note: its type and descriptor bytes.
pub struct ElfNote {
    pub n_type: u32,
    pub desc: Vec<u8>,
}

pub open spec fn note_models(ns: Seq<ElfNote>) -> Seq<(u32, Seq<u8>)> {
    ns.map_values(|n: ElfNote| (n.n_type, n.desc@))
}

/// The program headers of the ELF64 file `data` as the `object` crate reads
/// them, or `None` when it cannot parse the file.
pub uninterp spec fn elf64_program_headers(data: Seq<u8>) -> Option<Seq<ElfProgramHeader>>;

/// The notes of the section called `section` of the ELF64 file `data` as
/// the `object` crate reads them: `None` when it cannot parse the file or
/// the section's placement; `Some(None)` when there is no such section or it
/// is not a note section; otherwise the notes read in order and whether the
/// reading reached the end of the section without an error.
pub uninterp spec fn elf64_notes_section(data: Seq<u8>, section: Seq<char>) -> Option<
    Option<(Seq<(u32, Seq<u8>)>, bool)>,
>;

#[verifier::external_type_specification]
#[verifier::external_body]
pub struct ExObjectError(object::read::Error);

/// `ElfFile64::parse` and `elf_program_headers` of the `object` crate; each
/// header is given by its type, offset, physical address, file size and
/// memory size. The result is whatever `elf64_program_headers` names.
#[verifier::external_body]
fn elf_program_headers(data: &[u8]) -> (r: Result<Vec<ElfProgramHeader>, object::read::Error>)
    ensures
        r is Ok <==> elf64_program_headers(data@) is Some,
        r is Ok ==> r->Ok_0@ == elf64_program_headers(data@)->0,
{
    let elf = ElfFile64::<Endianness>::parse(data)?;
    let e = elf.endian();
    Ok(elf.elf_program_headers().iter().map(|ph| ElfProgramHeader {
        p_type: ph.p_type(e).0,
        p_offset: ph.p_offset(e),
        p_paddr: ph.p_paddr(e),
        p_filesz: ph.p_filesz(e),
        p_memsz: ph.p_memsz(e),
    }).collect())
}

/// `ElfFile64::parse`, `section_by_name(section)`, `SectionHeader::notes`
/// and `NoteIterator::next` of the `object` crate; each note is given by its
/// type and descriptor. The result is whatever `elf64_notes_section` names.
#[verifier::external_body]
fn elf_notes_section(data: &[u8], section: &str) -> (r: Result<
    Option<(Vec<ElfNote>, bool)>,
    object::read::Error,
>)
    ensures
        r is Ok <==> elf64_notes_section(data@, section@) is Some,
        r is Ok ==> match r->Ok_0 {
            None => elf64_notes_section(data@, section@)->0 is None,
            Some(found) => elf64_notes_section(data@, section@)->0 == Some(
                (note_models(found.0@), found.1),
            ),
        },
{
    let elf = ElfFile64::<Endianness>::parse(data)?;
    let e = elf.endian();
    let Some(sec) = elf.section_by_name(section) else { return Ok(None) };
    let Some(mut it) = sec.elf_section_header().notes(e, elf.data())? else { return Ok(None) };
    let mut notes = Vec::new();
    loop {
        match it.next() {
            Ok(Some(n)) => notes.push(ElfNote { n_type: n.n_type(e).0, desc: n.desc().to_vec() }),
            Ok(None) => return Ok(Some((notes, true))),
            Err(_) => return Ok(Some((notes, false))),
        }
    }
}

/// `XEN_ELFNOTE_PHYS32_ENTRY`: the note that holds the 32-bit PVH entry point.
pub const XEN_ELFNOTE_PHYS32_ENTRY: u32 = 18;

/// The PVH entry point named by the first entry-point note, read as a
/// little-endian value of 4 or 8 bytes. `complete` says whether `ns` holds
/// every note of the section.
pub open spec fn pvh_entry_spec(ns: Seq<(u32, Seq<u8>)>, complete: bool) -> Result<u64, BootError>
    decreases ns.len(),
{
    if ns.len() == 0 {
        if complete {
            Err(BootError::NoPvhEntry)
        } else {
            Err(BootError::InvalidElf)
        }
    } else if ns[0].0 == XEN_ELFNOTE_PHYS32_ENTRY {
        let d = ns[0].1;
        if d.len() == 4 {
            Ok(le_value(d.subrange(0, 4)) as u64)
        } else if d.len() == 8 {
            Ok(le_value(d.subrange(0, 8)) as u64)
        } else {
            Err(BootError::UnexpectedPvhNoteSize(d.len() as usize))
        }
    } else {
        pvh_entry_spec(ns.drop_first(), complete)
    }
}

/// Finds the PVH entry point among the notes of the `.notes` section.
pub fn try_pvh_entrypoint(notes: &Vec<ElfNote>, complete: bool) -> (r: Result<u64, BootError>)
    ensures
        r == pvh_entry_spec(note_models(notes@), complete),
{
    let ghost all = note_models(notes@);
    let mut i: usize = 0;
    assert(all.subrange(0, all.len() as int) =~= all);
    while i < notes.len()
        invariant
            i <= notes@.len(),
            all == note_models(notes@),
            pvh_entry_spec(all, complete) == pvh_entry_spec(all.subrange(i as int, all.len() as int), complete),
        decreases notes@.len() - i,
    {
        let ghost rest = all.subrange(i as int, all.len() as int);
        assert(rest[0] == (notes@[i as int].n_type, notes@[i as int].desc@));
        if notes[i].n_type == XEN_ELFNOTE_PHYS32_ENTRY {
            let desc = &notes[i].desc;
            if desc.len() == 4 {
                return Ok(read_le32(desc.as_slice(), 0) as u64);
            } else if desc.len() == 8 {
                return Ok(read_le64(desc.as_slice(), 0));
            } else {
                return Err(BootError::UnexpectedPvhNoteSize(desc.len()));
            }
        }
        assert(rest.drop_first() =~= all.subrange(i + 1, all.len() as int));
        i = i + 1;
    }
    if complete {
        Err(BootError::NoPvhEntry)
    } else {
        Err(BootError::InvalidElf)
    }
}

/// Whether the boot layout is defined for these inputs (see [`pvh_plan_defined`]).
pub fn pvh_layout_supported(
    headers: &Vec<ElfProgramHeader>,
    data_len: usize,
    initramfs_len: Option<u64>,
) -> (ok: bool)
    ensures
        ok == pvh_plan_defined(headers@, data_len as nat, initramfs_len),
{
    let mut i: usize = 0;
    while i < headers.len()
        invariant
            i <= headers@.len(),
            forall|j: int|
                0 <= j < i && is_load(#[trigger] headers@[j]) ==> headers@[j].p_paddr
                    + headers@[j].p_memsz <= u64::MAX,
        decreases headers@.len() - i,
    {
        let ph = headers[i];
        if ph.p_type == PT_LOAD && ph.p_paddr > u64::MAX - ph.p_memsz {
            assert(!load_ends_fit(headers@)) by {
                assert(is_load(headers@[i as int]));
            }
            return false;
        }
        i = i + 1;
    }
    let (addr_start, addr_end) = load_extent_of(headers);
    if addr_start > PVH_RAM_SIZE {
        return false;
    }
    let mut k: usize = 0;
    while k < headers.len()
        invariant
            k <= headers@.len(),
            (addr_start, addr_end) == load_extent(headers@),
            load_ends_fit(headers@),
            addr_start <= PVH_RAM_SIZE,
            forall|j: int|
                0 <= j < k && is_load(#[trigger] headers@[j]) ==> headers@[j].p_offset
                    + headers@[j].p_filesz <= data_len && headers@[j].p_paddr >= addr_start,
        decreases headers@.len() - k,
    {
        let ph = headers[k];
        if ph.p_type == PT_LOAD {
            if ph.p_offset > data_len as u64 || ph.p_filesz > data_len as u64 - ph.p_offset
                || ph.p_paddr < addr_start {
                assert(!(segments_in_file(headers@, data_len as nat) && segments_above(headers@, addr_start))) by {
                    assert(is_load(headers@[k as int]));
                }
                return false;
            }
        }
        k = k + 1;
    }
    match initramfs_len {
        None => true,
        Some(_) => {
            if addr_end > u64::MAX - 0xfff {
                return false;
            }
            let cmdline_start = align_up(addr_end);
            cmdline_start <= u64::MAX - 0x1000
        },
    }
}

/// Lays out a PVH boot of the ELF64 kernel image `data`, with an initramfs
/// of `initramfs_len` bytes if there is one. The entry point is looked for
/// in the image's `.notes` section.
pub fn linux_pvh_boot_plan(data: &[u8], initramfs_len: Option<u64>) -> (r: Result<PvhBootPlan, BootError>)
    ensures
        match elf64_notes_section(data@, ".notes"@) {
            None => r == Err::<PvhBootPlan, BootError>(BootError::InvalidElf),
            Some(None) => r == Err::<PvhBootPlan, BootError>(BootError::MissingNotes),
            Some(Some(found)) => match pvh_entry_spec(found.0, found.1) {
                Err(e) => r == Err::<PvhBootPlan, BootError>(e),
                Ok(entry) => match elf64_program_headers(data@) {
                    None => r == Err::<PvhBootPlan, BootError>(BootError::InvalidElf),
                    Some(hs) => if pvh_plan_defined(hs, data@.len(), initramfs_len) {
                        r matches Ok(plan) && pvh_plan_matches(plan, hs, entry, initramfs_len)
                    } else {
                        r == Err::<PvhBootPlan, BootError>(BootError::UnsupportedLayout)
                    },
                },
            },
        },
{
    let notes = match elf_notes_section(data, ".notes") {
        Err(_) => {
            return Err(BootError::InvalidElf);
        },
        Ok(None) => {
            return Err(BootError::MissingNotes);
        },
        Ok(Some(found)) => found,
    };
    let pvh_entrypoint = match try_pvh_entrypoint(&notes.0, notes.1) {
        Err(e) => {
            return Err(e);
        },
        Ok(entry) => entry,
    };
    let headers = match elf_program_headers(data) {
        Err(_) => {
            return Err(BootError::InvalidElf);
        },
        Ok(hs) => hs,
    };
    if !pvh_layout_supported(&headers, data.len(), initramfs_len) {
        return Err(BootError::UnsupportedLayout);
    }
    Ok(pvh_boot_plan(&headers, data.len(), pvh_entrypoint, initramfs_len))
}


/// The usable RAM that the PVH memory map reports lies in memory the boot
/// creates: the last entry is exactly the kernel's region, from its load
/// address up to 1 GiB, and the other usable entries lie inside the
/// boot-structure region at 0; the reserved entry is the EBDA/ROM hole below
/// 1 MiB.
pub proof fn lemma_pvh_memmap_ram_is_backed(start: u64)
    requires
        start <= PVH_RAM_SIZE,
    ensures
        pvh_memmap(start).len() == 4,
        pvh_memmap(start)[3].type_ == 1,
        pvh_memmap(start)[3].addr == start,
        pvh_memmap(start)[3].addr + pvh_memmap(start)[3].size == PVH_RAM_SIZE,
        forall|i: int|
            0 <= i < 3 && (#[trigger] pvh_memmap(start)[i]).type_ == 1 ==> pvh_memmap(start)[i].addr
                + pvh_memmap(start)[i].size <= HVM_REGION_SIZE,
        forall|i: int|
            0 <= i < 4 && (#[trigger] pvh_memmap(start)[i]).type_ != 1 ==> pvh_memmap(start)[i].type_
                == 2 && pvh_memmap(start)[i].addr == 0x9fc00 && pvh_memmap(start)[i].addr
                + pvh_memmap(start)[i].size == 0x100000,
{
}

/// `d` is a flat, present, ring-0, read/write code-or-data segment with
/// selector 0x10 that equals `cs` in everything but selector and type.
pub open spec fn flat_data_segment(d: SegmentDescriptor, cs: SegmentDescriptor) -> bool {
    &&& d == SegmentDescriptor { selector: 0x10, type_: 0b0010, ..cs }
    &&& d.s == 1 && d.present == 1 && d.base == 0 && d.dpl == 0
    &&& d.limit == 0xffff_ffff && d.unusable == 0
}

/// On PVH entry every data segment register holds a flat, present, ring-0,
/// read/write code-or-data segment (`s == 1`, type 2) with selector 0x10,
/// equal to the code segment in everything but selector and type; the code
/// segment is a flat, present, ring-0, 32-bit execute/read segment with
/// selector 0x8; protection is on (CR0.PE) and CR4 is clear. The same holds
/// of what `pvh_segments` returns.
pub proof fn lemma_pvh_entry_segments()
    ensures
        ({
            let r = pvh_segments_spec();
            &&& r.cs.s == 1 && r.cs.present == 1 && r.cs.base == 0 && r.cs.dpl == 0
            &&& r.cs.limit == 0xffff_ffff && r.cs.g == 1 && r.cs.db == 1 && r.cs.l == 0
            &&& r.cs.selector == 0x8 && r.cs.type_ == 0b1010 && r.cs.unusable == 0
            &&& flat_data_segment(r.ds, r.cs)
            &&& flat_data_segment(r.es, r.cs)
            &&& flat_data_segment(r.fs, r.cs)
            &&& flat_data_segment(r.gs, r.cs)
            &&& flat_data_segment(r.ss, r.cs)
            &&& r.tr.present == 1 && r.tr.s == 0 && r.tr.type_ == 11 && r.tr.selector == 0x18
            &&& r.ldt.unusable == 1
            &&& r.cr0 & 1 == 1 && r.cr4 == 0
        }),
{
    assert(0x1u64 & 1 == 1) by (bit_vector);
}

/// The start-of-day structure begins with the PVH magic bytes `x`,
/// `E` | 0x80, `n`, `3`, declares version 1, and reports no ACPI RSDP.
pub proof fn lemma_pvh_start_info_header(nr_modules: u32)
    ensures
        start_info_bytes(pvh_start_info(nr_modules)).subrange(0, 4) == seq![0x78u8, 0xc5u8, 0x6eu8, 0x33u8],
        pvh_start_info(nr_modules).version == 1,
        pvh_start_info(nr_modules).rsdp_paddr == 0,
        pvh_start_info(nr_modules).nr_modules == nr_modules,
{
    let b = start_info_bytes(pvh_start_info(nr_modules));
    reveal_with_fuel(le_bytes, 5);
    assert(b.subrange(0, 4) =~= le_bytes(XEN_HVM_START_MAGIC as nat, 4));
    assert(le_bytes(XEN_HVM_START_MAGIC as nat, 4) =~= seq![0x78u8, 0xc5u8, 0x6eu8, 0x33u8]);
}
} // verus!
