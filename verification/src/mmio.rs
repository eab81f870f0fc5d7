use vstd::prelude::*;

verus! {

/// One guest access to a memory-mapped I/O address, as KVM reports it on an
/// MMIO exit: the guest-physical address, up to eight data bytes, the access
/// length and its direction.
pub struct MmioAccess {
    pub phys_addr: u64,
    pub data: [u8; 8],
    pub len: u32,
    pub is_write: u8,
}

/// The 4 KiB page that an MMIO address falls in; devices are registered by
/// page number.
pub fn mmio_page(phys_addr: u64) -> (page: u64)
    ensures
        page == phys_addr / 4096,
{
    let page = phys_addr >> 12;
    assert(phys_addr >> 12 == phys_addr / 4096) by (bit_vector);
    page
}

} // verus!
