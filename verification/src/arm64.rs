use vstd::prelude::*;

use crate::bytes::{le_value, read_le32, read_le64};

verus! {

/// The header at the start of an AArch64 Linux `Image` file.
#[derive(Clone, Copy)]
pub struct Arm64ImageHeader {
    pub code0: u32,
    pub code1: u32,
    /// Image load offset from the start of RAM, little-endian.
    pub text_offset: u64,
    /// Effective image size, little-endian.
    pub image_size: u64,
    pub flags: u64,
    pub res2: u64,
    pub res3: u64,
    pub res4: u64,
    /// `0x644d5241`, the bytes `ARM\x64`.
    pub magic: u32,
    pub res5: u32,
}

/// The magic number of an AArch64 Linux image header.
pub const ARM64_IMAGE_MAGIC: u32 = 0x644d5241;

/// The little-endian value of `b[o..o + n]`.
pub open spec fn field(b: Seq<u8>, o: int, n: int) -> nat {
    le_value(b.subrange(o, o + n))
}

/// Decodes the 64-byte header of an AArch64 Linux image.
pub fn linux_header_from_bytes(buf: &[u8]) -> (h: Arm64ImageHeader)
    requires
        buf@.len() >= 64,
    ensures
        h.code0 == field(buf@, 0, 4),
        h.code1 == field(buf@, 4, 4),
        h.text_offset == field(buf@, 8, 8),
        h.image_size == field(buf@, 16, 8),
        h.flags == field(buf@, 24, 8),
        h.res2 == field(buf@, 32, 8),
        h.res3 == field(buf@, 40, 8),
        h.res4 == field(buf@, 48, 8),
        h.magic == field(buf@, 56, 4),
        h.res5 == field(buf@, 60, 4),
{
    Arm64ImageHeader {
        code0: read_le32(buf, 0),
        code1: read_le32(buf, 4),
        text_offset: read_le64(buf, 8),
        image_size: read_le64(buf, 16),
        flags: read_le64(buf, 24),
        res2: read_le64(buf, 32),
        res3: read_le64(buf, 40),
        res4: read_le64(buf, 48),
        magic: read_le32(buf, 56),
        res5: read_le32(buf, 60),
    }
}

/// Guest-physical start of RAM, where the device tree blob is placed.
pub const LOAD_ADDR: u64 = 0x4000_0000;

/// Offset of the initramfs from the start of RAM.
pub const INITRAMFS_OFFS: u64 = 0x200_000;

/// Offset of the kernel image from the start of RAM.
pub const KERN_OFFS: u64 = 0x200_000 + INITRAMFS_OFFS;

/// Size of guest RAM: 1 GiB.
pub const ARM64_RAM_SIZE: usize = 0x4000_0000;

/// `KVM_ARM_DEVICE_VGIC_V2`.
pub const KVM_ARM_DEVICE_VGIC_V2: u32 = 0x5;

/// `KVM_DEV_ARM_VGIC_GRP_ADDR`.
pub const KVM_DEV_ARM_VGIC_GRP_ADDR: u32 = 0x0;

/// `KVM_VGIC_V2_ADDR_TYPE_DIST`.
pub const KVM_VGIC_V2_ADDR_TYPE_DIST: u64 = 0x0;

/// `KVM_VGIC_V2_ADDR_TYPE_CPU`.
pub const KVM_VGIC_V2_ADDR_TYPE_CPU: u64 = 0x1;

/// Guest-physical base of the GICv2 distributor.
pub const GIC_DIST_ADDR: u64 = 0x08_000_000;

/// Guest-physical base of the GICv2 CPU interface.
pub const GIC_CPU_ADDR: u64 = 0x08_010_000;

/// How the in-kernel GICv2 is created and where its two frames are placed.
pub struct VgicSetup {
    pub device_type: u32,
    pub group: u32,
    pub dist_attr: u64,
    pub dist_addr: u64,
    pub cpu_attr: u64,
    pub cpu_addr: u64,
}

/// Why an AArch64 image cannot be booted.
#[derive(Debug, Clone, Copy, PartialEq, Eq)]
pub enum Arm64BootError {
    /// No device tree blob was given.
    MissingDtb,
}

/// Everything needed to boot an AArch64 Linux image: the RAM region, where
/// each file goes in it, the registers the kernel is entered with (by name,
/// in the order they are set) and the interrupt controller.
pub struct Arm64BootPlan {
    pub region_size: usize,
    pub region_addr: u64,
    pub dtb_offset: u64,
    pub initramfs_offset: Option<u64>,
    pub kernel_offset: u64,
    pub boot_regs: Vec<(String, u64)>,
    pub vgic: VgicSetup,
}

/// The registers the kernel is entered with: `x0` holds the address of the
/// device tree blob, `x1`..`x3` are zero, and `pc` is the kernel's first
/// instruction.
pub open spec fn arm64_boot_regs() -> Seq<(Seq<char>, u64)> {
    seq![
        (seq!['x', '0'], LOAD_ADDR),
        (seq!['x', '1'], 0u64),
        (seq!['x', '2'], 0u64),
        (seq!['x', '3'], 0u64),
        (seq!['p', 'c'], (LOAD_ADDR + KERN_OFFS) as u64),
    ]
}

/// The plan for booting with a device tree blob, and an initramfs when
/// `has_initramfs`; an error when there is no device tree blob.
pub fn arm64_boot_plan(has_dtb: bool, has_initramfs: bool) -> (r: Result<
    Arm64BootPlan,
    Arm64BootError,
>)
    ensures
        !has_dtb ==> r matches Err(Arm64BootError::MissingDtb),
        has_dtb ==> (r matches Ok(p) && {
            &&& p.region_size == ARM64_RAM_SIZE
            &&& p.region_addr == LOAD_ADDR
            &&& p.dtb_offset == 0
            &&& p.initramfs_offset == (if has_initramfs {
                Some(INITRAMFS_OFFS)
            } else {
                None::<u64>
            })
            &&& p.kernel_offset == KERN_OFFS
            &&& p.boot_regs@.len() == 5
            &&& forall|i: int|
                0 <= i < 5 ==> (#[trigger] p.boot_regs@[i]).0@ == arm64_boot_regs()[i].0
                    && p.boot_regs@[i].1 == arm64_boot_regs()[i].1
            &&& p.vgic == VgicSetup {
                device_type: KVM_ARM_DEVICE_VGIC_V2,
                group: KVM_DEV_ARM_VGIC_GRP_ADDR,
                dist_attr: KVM_VGIC_V2_ADDR_TYPE_DIST,
                dist_addr: GIC_DIST_ADDR,
                cpu_attr: KVM_VGIC_V2_ADDR_TYPE_CPU,
                cpu_addr: GIC_CPU_ADDR,
            }
        }),
{
    if !has_dtb {
        return Err(Arm64BootError::MissingDtb);
    }
    let initramfs_offset = if has_initramfs {
        Some(INITRAMFS_OFFS)
    } else {
        None
    };
    let mut boot_regs: Vec<(String, u64)> = Vec::new();
    boot_regs.push(("x0".to_owned(), LOAD_ADDR));
    boot_regs.push(("x1".to_owned(), 0x0));
    boot_regs.push(("x2".to_owned(), 0x0));
    boot_regs.push(("x3".to_owned(), 0x0));
    boot_regs.push(("pc".to_owned(), LOAD_ADDR + KERN_OFFS));
    proof {
        reveal_strlit("x0");
        reveal_strlit("x1");
        reveal_strlit("x2");
        reveal_strlit("x3");
        reveal_strlit("pc");
        assert(boot_regs@[0].0@ =~= seq!['x', '0']);
        assert(boot_regs@[1].0@ =~= seq!['x', '1']);
        assert(boot_regs@[2].0@ =~= seq!['x', '2']);
        assert(boot_regs@[3].0@ =~= seq!['x', '3']);
        assert(boot_regs@[4].0@ =~= seq!['p', 'c']);
    }
    Ok(
        Arm64BootPlan {
            region_size: ARM64_RAM_SIZE,
            region_addr: LOAD_ADDR,
            dtb_offset: 0x0,
            initramfs_offset,
            kernel_offset: KERN_OFFS,
            boot_regs,
            vgic: VgicSetup {
                device_type: KVM_ARM_DEVICE_VGIC_V2,
                group: KVM_DEV_ARM_VGIC_GRP_ADDR,
                dist_attr: KVM_VGIC_V2_ADDR_TYPE_DIST,
                dist_addr: GIC_DIST_ADDR,
                cpu_attr: KVM_VGIC_V2_ADDR_TYPE_CPU,
                cpu_addr: GIC_CPU_ADDR,
            },
        },
    )
}

/// The device tree blob, the initramfs and the kernel lie in RAM in that
/// order, each within the region; `x0` holds the device tree blob's guest
/// address and `pc` the kernel's.
pub proof fn lemma_arm64_layout()
    ensures
        0 < INITRAMFS_OFFS < KERN_OFFS < ARM64_RAM_SIZE,
        arm64_boot_regs()[0].1 == LOAD_ADDR + 0,
        arm64_boot_regs()[4].1 == LOAD_ADDR + KERN_OFFS,
        LOAD_ADDR + ARM64_RAM_SIZE <= u64::MAX,
{
}

} // verus!
