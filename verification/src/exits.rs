use vstd::prelude::*;

use crate::mmio::MmioAccess;

verus! {

pub const KVM_EXIT_IO: u32 = 2;
pub const KVM_EXIT_HLT: u32 = 5;
pub const KVM_EXIT_MMIO: u32 = 6;
pub const KVM_EXIT_SHUTDOWN: u32 = 8;
pub const KVM_EXIT_FAIL_ENTRY: u32 = 9;
pub const KVM_EXIT_INTERNAL_ERROR: u32 = 17;

/// Direction of a port I/O exit: the guest writes.
pub const KVM_EXIT_IO_OUT: u8 = 1;

/// Direction of a port I/O exit: the guest reads.
pub const KVM_EXIT_IO_IN: u8 = 0;

/// Why the virtual CPU stopped running.
#[derive(Debug, Clone, Copy, PartialEq, Eq)]
pub enum ExitKind {
    Io,
    Hlt,
    Mmio,
    Shutdown,
    FailEntry,
    InternalError,
    Other,
}

/// The kind of a `KVM_RUN` exit reason.
pub fn classify_exit(exit_reason: u32) -> (k: ExitKind)
    ensures
        k == (if exit_reason == KVM_EXIT_IO {
            ExitKind::Io
        } else if exit_reason == KVM_EXIT_SHUTDOWN {
            ExitKind::Shutdown
        } else if exit_reason == KVM_EXIT_MMIO {
            ExitKind::Mmio
        } else if exit_reason == KVM_EXIT_HLT {
            ExitKind::Hlt
        } else if exit_reason == KVM_EXIT_INTERNAL_ERROR {
            ExitKind::InternalError
        } else if exit_reason == KVM_EXIT_FAIL_ENTRY {
            ExitKind::FailEntry
        } else {
            ExitKind::Other
        }),
{
    if exit_reason == KVM_EXIT_IO {
        ExitKind::Io
    } else if exit_reason == KVM_EXIT_SHUTDOWN {
        ExitKind::Shutdown
    } else if exit_reason == KVM_EXIT_MMIO {
        ExitKind::Mmio
    } else if exit_reason == KVM_EXIT_HLT {
        ExitKind::Hlt
    } else if exit_reason == KVM_EXIT_INTERNAL_ERROR {
        ExitKind::InternalError
    } else if exit_reason == KVM_EXIT_FAIL_ENTRY {
        ExitKind::FailEntry
    } else {
        ExitKind::Other
    }
}

/// How the run loop goes on after an exit has been handled.
#[derive(Debug, Clone, Copy, PartialEq, Eq)]
pub enum RunControl {
    /// Run the virtual CPU again.
    Continue,
    /// Stop running and end normally.
    Stop,
    /// Stop running and report an error.
    Fail,
}

/// After I/O and MMIO exits the guest runs on; an internal KVM error is a
/// failure; a halt, a shutdown, a failed entry and any other exit end the run.
pub fn exit_control(kind: ExitKind) -> (c: RunControl)
    ensures
        c == (match kind {
            ExitKind::Io | ExitKind::Mmio => RunControl::Continue,
            ExitKind::InternalError => RunControl::Fail,
            _ => RunControl::Stop,
        }),
{
    match kind {
        ExitKind::Io | ExitKind::Mmio => RunControl::Continue,
        ExitKind::InternalError => RunControl::Fail,
        _ => RunControl::Stop,
    }
}

/// How the run loop goes on when `KVM_RUN` itself fails: an interrupted
/// call runs again unless a stop was requested; any other failure is
/// reported.
pub fn run_failure_control(interrupted: bool, stop_requested: bool) -> (c: RunControl)
    ensures
        c == (if !interrupted {
            RunControl::Fail
        } else if stop_requested {
            RunControl::Stop
        } else {
            RunControl::Continue
        }),
{
    if interrupted {
        if stop_requested {
            RunControl::Stop
        } else {
            RunControl::Continue
        }
    } else {
        RunControl::Fail
    }
}

/// What to do with a port I/O exit.
#[derive(Debug, Clone, Copy, PartialEq, Eq)]
pub enum PioAction {
    /// Print the first data byte on the console.
    Print,
    /// Answer the read with this byte in the first data byte.
    Fill(u8),
    /// Drop the write.
    Ignore,
}

/// The serial port that the guest sees at 0x3f8: writes to the transmit
/// register print, the line status register (0x3fd) always reports an empty
/// transmitter, the port's other registers read 0, other ports read 0xff
/// and swallow writes.
pub open spec fn pio_action_spec(direction: u8, port: u16) -> PioAction {
    if direction == KVM_EXIT_IO_OUT && port == 0x3f8 {
        PioAction::Print
    } else if direction == KVM_EXIT_IO_IN && port == 0x3fd {
        PioAction::Fill(0x60)
    } else if direction == KVM_EXIT_IO_IN && 0x3f8 <= port <= 0x3ff {
        PioAction::Fill(0x00)
    } else if direction == KVM_EXIT_IO_OUT {
        PioAction::Ignore
    } else {
        PioAction::Fill(0xff)
    }
}

/// How the monitor answers a port I/O exit.
pub fn pio_action(direction: u8, port: u16) -> (a: PioAction)
    ensures
        a == pio_action_spec(direction, port),
{
    if direction == KVM_EXIT_IO_OUT && port == 0x3f8 {
        PioAction::Print
    } else if direction == KVM_EXIT_IO_IN && port == 0x3fd {
        PioAction::Fill(0x60)
    } else if direction == KVM_EXIT_IO_IN && 0x3f8 <= port && port <= 0x3ff {
        PioAction::Fill(0x00)
    } else if direction == KVM_EXIT_IO_OUT {
        PioAction::Ignore
    } else {
        PioAction::Fill(0xff)
    }
}

/// The character a guest write to the VGA text buffer shows: even addresses
/// of the page at 0xb8000 hold characters, odd ones their attributes.
pub fn vga_text_output(mmio: &MmioAccess) -> (c: Option<u8>)
    ensures
        c == (if mmio.phys_addr / 4096 == 0xb8 && mmio.phys_addr % 2 == 0 && mmio.is_write != 0 {
            Some(mmio.data@[0])
        } else {
            None::<u8>
        }),
{
    let addr = mmio.phys_addr;
    assert(addr >> 12 == addr / 4096) by (bit_vector);
    if (mmio.phys_addr >> 12 == 0xb8) && (mmio.phys_addr % 2 == 0) && (mmio.is_write != 0) {
        Some(mmio.data[0])
    } else {
        None
    }
}


/// The serial port at 0x3f8..=0x3ff: a write to its data register prints, a
/// read of its line status register reports an idle transmitter (0x60),
/// a read of any of its other registers answers 0; outside it every read
/// answers 0xff and every write is dropped. Nothing else is printed.
pub proof fn lemma_serial_port_answers(direction: u8, port: u16)
    ensures
        direction == KVM_EXIT_IO_IN && 0x3f8 <= port <= 0x3ff && port != 0x3fd
            ==> pio_action_spec(direction, port) == PioAction::Fill(0x00),
        direction == KVM_EXIT_IO_IN && port == 0x3fd ==> pio_action_spec(direction, port)
            == PioAction::Fill(0x60),
        direction == KVM_EXIT_IO_IN && !(0x3f8 <= port <= 0x3ff) ==> pio_action_spec(
            direction,
            port,
        ) == PioAction::Fill(0xff),
        direction == KVM_EXIT_IO_OUT ==> (pio_action_spec(direction, port) == PioAction::Print
            <==> port == 0x3f8),
        direction == KVM_EXIT_IO_OUT && port != 0x3f8 ==> pio_action_spec(direction, port)
            == PioAction::Ignore,
        pio_action_spec(direction, port) == PioAction::Print ==> direction == KVM_EXIT_IO_OUT
            && port == 0x3f8,
{
}
} // verus!
