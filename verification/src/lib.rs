//! Verified core of a small KVM-based virtual machine monitor: guest memory
//! bookkeeping, little-endian byte codecs, the PL011 UART model, the AArch64
//! core-register naming scheme, and the boot-layout computations for AArch64
//! Linux images and x86-64 PVH kernels.
pub mod bytes;
pub mod mmio;
pub mod regs;
pub mod uart;
pub mod pvh;

pub mod arm64;
pub mod guest_mem;
pub mod exits;
