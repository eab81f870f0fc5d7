use std::collections::HashMap;
use vstd::prelude::*;

use crate::bytes::{le_bytes, le_value, read_le32, splice, write_le32};
use crate::mmio::MmioAccess;

verus! {

broadcast use vstd::std_specs::hash::group_hash_axioms;

/// The identification registers of the PL011 (PeriphID0-3 at `0xfe0..0xfec`,
/// PCellID0-3 at `0xff0..0xffc`) and their fixed values.
pub open spec fn pl011_id_map() -> Map<u32, u32> {
    map![
        0xfe0u32 => 0x11u32, 0xfe4u32 => 0x10u32, 0xfe8u32 => 0x14u32, 0xfecu32 => 0x00u32,
        0xff0u32 => 0x0du32, 0xff4u32 => 0xf0u32, 0xff8u32 => 0x05u32, 0xffcu32 => 0xb1u32,
    ]
}

/// Builds the table of the PL011 identification registers.
pub fn load_pl011_id_map() -> (m: HashMap<u32, u32>)
    ensures
        m@ == pl011_id_map(),
{
    let mut m: HashMap<u32, u32> = HashMap::new();
    m.insert(0xfe0, 0x11);
    m.insert(0xfe4, 0x10);
    m.insert(0xfe8, 0x14);
    m.insert(0xfec, 0x00);
    m.insert(0xff0, 0x0d);
    m.insert(0xff4, 0xf0);
    m.insert(0xff8, 0x05);
    m.insert(0xffc, 0xb1);
    assert(m@ =~= pl011_id_map());
    m
}

/// The register file of the emulated PL011: the pending received character
/// and the registers that the guest can observe.
pub struct Pl011Regs {
    pub rx: Option<u32>,
    /// FR, flag register (offset 0x18).
    pub fr: u32,
    /// CR, control register (offset 0x30).
    pub cr: u32,
    /// IMSC, interrupt mask set/clear (offset 0x38).
    pub imsc: u32,
    /// LCR_H, line control (offset 0x2c).
    pub lcr: u32,
    /// IBRD, integer baud rate divisor (offset 0x24).
    pub ibrd: u32,
    /// FBRD, fractional baud rate divisor (offset 0x28).
    pub fbrd: u32,
    /// RIS, raw interrupt status (offset 0x3c).
    pub ris: u32,
    /// ICR, interrupt clear (offset 0x44).
    pub icr: u32,
}

/// The receive interrupt bit (RXRIS) of RIS, IMSC and MIS.
pub const RX_INTERRUPT: u32 = 0x10;

/// What holds of every register file the UART can reach: only the receive
/// interrupt can be raised, it is raised only while a character is pending,
/// and FR and ICR keep their reset values.
pub open spec fn pl011_state_inv(s: Pl011Regs) -> bool {
    &&& s.ris & !0x10u32 == 0
    &&& s.ris & 0x10u32 != 0 ==> s.rx is Some
    &&& s.fr == 0x90
    &&& s.icr == 0
}

/// The level of the UART's interrupt line: raised exactly when a raw
/// interrupt is pending that is not masked.
pub open spec fn irq_level(s: Pl011Regs) -> u32 {
    if s.ris & s.imsc != 0 {
        1
    } else {
        0
    }
}

/// The value the guest reads from register offset `reg`.
pub open spec fn pl011_read_value(s: Pl011Regs, reg: u32) -> u32 {
    if pl011_id_map().contains_key(reg) {
        pl011_id_map()[reg]
    } else if reg == 0x0 {
        match s.rx {
            Some(c) => c,
            None => 0,
        }
    } else if reg == 0x18 {
        0x80 | (if s.rx is None { 0x10u32 } else { 0u32 })
    } else if reg == 0x24 {
        s.ibrd
    } else if reg == 0x28 {
        s.fbrd
    } else if reg == 0x2c {
        s.lcr
    } else if reg == 0x30 {
        s.cr
    } else if reg == 0x3c {
        s.ris
    } else if reg == 0x38 {
        s.imsc
    } else if reg == 0x40 {
        s.ris & s.imsc
    } else if reg == 0x44 {
        s.icr
    } else {
        0
    }
}

/// The register file after the guest reads offset `reg`: reading the data
/// register consumes the pending character and clears the receive interrupt.
pub open spec fn pl011_after_read(s: Pl011Regs, reg: u32) -> Pl011Regs {
    if reg == 0x0 {
        Pl011Regs { rx: None, ris: s.ris & !0x10u32, ..s }
    } else {
        s
    }
}

/// Whether reading offset `reg` may change the interrupt line.
pub open spec fn read_updates_irq(reg: u32) -> bool {
    reg == 0x0
}

/// The register file after the guest writes `val` to offset `reg`.
pub open spec fn pl011_after_write(s: Pl011Regs, reg: u64, val: u32) -> Pl011Regs {
    if reg == 0x24 {
        Pl011Regs { ibrd: val, ..s }
    } else if reg == 0x28 {
        Pl011Regs { fbrd: val, ..s }
    } else if reg == 0x2c {
        Pl011Regs { lcr: val, ..s }
    } else if reg == 0x30 {
        Pl011Regs { cr: val, ..s }
    } else if reg == 0x38 {
        Pl011Regs { imsc: val, ..s }
    } else if reg == 0x44 {
        Pl011Regs { ris: s.ris & !val, ..s }
    } else {
        s
    }
}

/// Whether writing offset `reg` may change the interrupt line.
pub open spec fn write_updates_irq(reg: u64) -> bool {
    reg == 0x38 || reg == 0x44
}

/// The register file after a character arrives from the console.
pub open spec fn pl011_after_receive(s: Pl011Regs, ch: u32) -> Pl011Regs {
    Pl011Regs { rx: Some(ch), ris: s.ris | 0x10u32, ..s }
}

/// The register file right after reset.
pub open spec fn pl011_reset() -> Pl011Regs {
    Pl011Regs {
        rx: None,
        fr: 0x90,
        cr: 0,
        imsc: 0,
        lcr: 0,
        ibrd: 0,
        fbrd: 0,
        ris: 0,
        icr: 0,
    }
}

/// What the monitor must do after the UART handled an access: print a
/// transmitted byte, and drive the interrupt line to a new level.
pub struct MmioEffect {
    pub output: Option<u8>,
    pub irq_level: Option<u32>,
}

/// An emulated ARM PL011 UART.
pub struct UART {
    rx: Option<u32>,
    fr: u32,
    cr: u32,
    imsc: u32,
    lcr: u32,
    ibrd: u32,
    fbrd: u32,
    ris: u32,
    icr: u32,
    id_map: HashMap<u32, u32>,
}

impl View for UART {
    type V = Pl011Regs;

    closed spec fn view(&self) -> Pl011Regs {
        Pl011Regs {
            rx: self.rx,
            fr: self.fr,
            cr: self.cr,
            imsc: self.imsc,
            lcr: self.lcr,
            ibrd: self.ibrd,
            fbrd: self.fbrd,
            ris: self.ris,
            icr: self.icr,
        }
    }
}

impl UART {
    #[verifier::type_invariant]
    spec fn inv(self) -> bool {
        &&& self.id_map@ == pl011_id_map()
        &&& pl011_state_inv(self@)
    }

    /// A UART in its reset state.
    pub fn new() -> (u: UART)
        ensures
            u@ == pl011_reset(),
            pl011_state_inv(u@),
    {
        let id_map = load_pl011_id_map();
        assert(0u32 & !0x10u32 == 0 && 0u32 & 0x10u32 == 0) by (bit_vector);
        let u = UART {
            fr: 0x90,
            cr: 0x0,
            imsc: 0x0,
            lcr: 0x0,
            ibrd: 0x0,
            fbrd: 0x0,
            icr: 0x0,
            ris: 0x0,
            rx: None,
            id_map,
        };
        u
    }

    /// The level the interrupt line must be driven to.
    pub fn update_irq(&self) -> (level: u32)
        ensures
            level == irq_level(self@),
    {
        if (self.ris & self.imsc) != 0 {
            1
        } else {
            0
        }
    }

    /// A character arrives from the console; returns the new interrupt level.
    pub fn send_char(&mut self, ch: u32) -> (level: u32)
        ensures
            final(self)@ == pl011_after_receive(old(self)@, ch),
            pl011_state_inv(final(self)@),
            level == irq_level(final(self)@),
    {
        proof {
            use_type_invariant(&*self);
        }
        let ris = self.ris;
        assert((ris & !0x10u32 == 0) ==> ((ris | 0x10u32) & !0x10u32 == 0)) by (bit_vector);
        assert((ris | 0x10u32) & 0x10u32 != 0) by (bit_vector);
        self.rx = Some(ch);
        self.ris = self.ris | RX_INTERRUPT;
        proof {
            use_type_invariant(&*self);
        }
        self.update_irq()
    }

    /// The guest reads register offset `inb`: returns the value read and, when
    /// the read changed the interrupt state, the new interrupt level.
    pub fn pl011_response(&mut self, inb: u32) -> (r: (u32, Option<u32>))
        ensures
            r.0 == pl011_read_value(old(self)@, inb),
            final(self)@ == pl011_after_read(old(self)@, inb),
            pl011_state_inv(final(self)@),
            r.1 == (if read_updates_irq(inb) {
                Some(irq_level(final(self)@))
            } else {
                None::<u32>
            }),
    {
        proof {
            use_type_invariant(&*self);
        }
        match self.id_map.get(&inb) {
            Some(v) => {
                return (*v, None);
            },
            None => {},
        }
        if inb == 0x0 {
            let ris = self.ris;
            assert((ris & !0x10u32 == 0) ==> ((ris & !0x10u32) & !0x10u32 == 0)) by (bit_vector);
            assert((ris & !0x10u32) & 0x10u32 == 0) by (bit_vector);
            self.ris = self.ris & !RX_INTERRUPT;
            let ch = match self.rx {
                Some(c) => c,
                None => 0,
            };
            self.rx = None;
            proof {
                use_type_invariant(&*self);
            }
            let level = self.update_irq();
            return (ch, Some(level));
        }
        let v = if inb == 0x18 {
            0x80 | if self.rx.is_none() {
                0x10
            } else {
                0
            }
        } else if inb == 0x24 {
            self.ibrd
        } else if inb == 0x28 {
            self.fbrd
        } else if inb == 0x2c {
            self.lcr
        } else if inb == 0x30 {
            self.cr
        } else if inb == 0x3c {
            self.ris
        } else if inb == 0x38 {
            self.imsc
        } else if inb == 0x40 {
            self.ris & self.imsc
        } else if inb == 0x44 {
            self.icr
        } else {
            0x0
        };
        (v, None)
    }

    /// Handles one guest access to the UART's page.
    ///
    /// A write to the data register transmits its first byte; a read fills the
    /// first four data bytes with the register's value; a write to another
    /// register stores the first four data bytes, read as a little-endian
    /// value.
    pub fn handle(&mut self, mmio: &mut MmioAccess) -> (e: MmioEffect)
        ensures
            pl011_state_inv(final(self)@),
            final(mmio).phys_addr == old(mmio).phys_addr,
            final(mmio).len == old(mmio).len,
            final(mmio).is_write == old(mmio).is_write,
            ({
                let reg = old(mmio).phys_addr & 0xfff;
                let s = old(self)@;
                if old(mmio).is_write != 0 && reg == 0 {
                    &&& e.output == Some(old(mmio).data@[0])
                    &&& e.irq_level is None
                    &&& final(self)@ == s
                    &&& final(mmio).data@ == old(mmio).data@
                } else if old(mmio).is_write == 0 {
                    &&& e.output is None
                    &&& final(self)@ == pl011_after_read(s, reg as u32)
                    &&& final(mmio).data@ == splice(
                        old(mmio).data@,
                        0,
                        le_bytes(pl011_read_value(s, reg as u32) as nat, 4),
                    )
                    &&& e.irq_level == (if read_updates_irq(reg as u32) {
                        Some(irq_level(final(self)@))
                    } else {
                        None::<u32>
                    })
                } else {
                    let val = le_value(old(mmio).data@.subrange(0, 4)) as u32;
                    &&& e.output is None
                    &&& final(self)@ == pl011_after_write(s, reg, val)
                    &&& final(mmio).data@ == old(mmio).data@
                    &&& e.irq_level == (if write_updates_irq(reg) {
                        Some(irq_level(final(self)@))
                    } else {
                        None::<u32>
                    })
                }
            }),
    {
        proof {
            use_type_invariant(&*self);
        }
        let mmio_reg = mmio.phys_addr & 0xfff;
        if mmio.is_write != 0 && mmio_reg == 0x0 {
            return MmioEffect { output: Some(mmio.data[0]), irq_level: None };
        } else if mmio.is_write == 0 {
            let (value, irq) = self.pl011_response(mmio_reg as u32);
            write_le32(&mut mmio.data, 0, value);
            return MmioEffect { output: None, irq_level: irq };
        } else {
            let val = read_le32(&mmio.data, 0);
            if mmio_reg == 0x24 {
                self.ibrd = val;
            } else if mmio_reg == 0x28 {
                self.fbrd = val;
            } else if mmio_reg == 0x2c {
                self.lcr = val;
            } else if mmio_reg == 0x30 {
                self.cr = val;
            } else if mmio_reg == 0x38 {
                self.imsc = val;
                let level = self.update_irq();
                return MmioEffect { output: None, irq_level: Some(level) };
            } else if mmio_reg == 0x44 {
                let ris = self.ris;
                assert((ris & !0x10u32 == 0) ==> ((ris & !val) & !0x10u32 == 0)) by (bit_vector);
                assert(((ris & !val) & 0x10u32 != 0) ==> (ris & 0x10u32 != 0)) by (bit_vector);
                self.ris = self.ris & !val;
                proof {
                    use_type_invariant(&*self);
                }
                let level = self.update_irq();
                return MmioEffect { output: None, irq_level: Some(level) };
            }
            proof {
                use_type_invariant(&*self);
            }
            return MmioEffect { output: None, irq_level: None };
        }
    }
}


/// Each register the guest can program (IBRD, FBRD, LCR_H, CR, IMSC) reads
/// back the value last written to it, and reading it changes nothing.
pub proof fn lemma_pl011_write_then_read(s: Pl011Regs, reg: u32, val: u32)
    requires
        reg == 0x24 || reg == 0x28 || reg == 0x2c || reg == 0x30 || reg == 0x38,
    ensures
        pl011_read_value(pl011_after_write(s, reg as u64, val), reg) == val,
        pl011_after_read(pl011_after_write(s, reg as u64, val), reg) == pl011_after_write(
            s,
            reg as u64,
            val,
        ),
{
}

/// Writing a mask to ICR clears exactly the raw interrupt bits it names.
pub proof fn lemma_pl011_interrupt_clear(s: Pl011Regs, val: u32)
    ensures
        pl011_read_value(pl011_after_write(s, 0x44, val), 0x3c) == s.ris & !val,
{
}

/// A character received from the console raises the receive interrupt and
/// is read back from the data register exactly once: after that read the
/// flag register reports an empty receive FIFO, the data register reads 0
/// and the receive interrupt is clear.
pub proof fn lemma_pl011_receive_then_read(s: Pl011Regs, ch: u32)
    ensures
        pl011_after_receive(s, ch).ris & RX_INTERRUPT != 0,
        pl011_read_value(pl011_after_receive(s, ch), 0x18) == 0x80,
        pl011_read_value(pl011_after_receive(s, ch), 0x0) == ch,
        pl011_after_receive(s, ch).imsc & RX_INTERRUPT != 0 ==> irq_level(
            pl011_after_receive(s, ch),
        ) == 1,
        pl011_read_value(pl011_after_read(pl011_after_receive(s, ch), 0x0), 0x18) == 0x90,
        pl011_read_value(pl011_after_read(pl011_after_receive(s, ch), 0x0), 0x0) == 0,
        pl011_after_read(pl011_after_receive(s, ch), 0x0).ris & RX_INTERRUPT == 0,
{
    let r = s.ris;
    let m = s.imsc;
    assert((r | 0x10u32) & 0x10u32 != 0) by (bit_vector);
    assert((m & 0x10u32 != 0) ==> ((r | 0x10u32) & m != 0)) by (bit_vector);
    assert(((r | 0x10u32) & !0x10u32) & 0x10u32 == 0) by (bit_vector);
    assert(0x80u32 | 0x10u32 == 0x90u32) by (bit_vector);
    assert(0x80u32 | 0u32 == 0x80u32) by (bit_vector);
}

/// The identification registers read as the fixed PL011 values whatever the
/// state, and reading them changes nothing.
pub proof fn lemma_pl011_id_registers(s: Pl011Regs, reg: u32)
    requires
        pl011_id_map().contains_key(reg),
    ensures
        pl011_read_value(s, reg) == pl011_id_map()[reg],
        pl011_after_read(s, reg) == s,
{
}

/// MIS reads as RIS masked by IMSC, and the interrupt line is raised exactly
/// when MIS is nonzero.
pub proof fn lemma_pl011_masked_status(s: Pl011Regs)
    ensures
        pl011_read_value(s, 0x40) == s.ris & s.imsc,
        irq_level(s) == (if pl011_read_value(s, 0x40) != 0 {
            1u32
        } else {
            0u32
        }),
{
}

/// What the console reader does with one byte typed by the user.
#[derive(Debug, Clone, Copy, PartialEq, Eq)]
pub enum ConsoleAction {
    /// Nothing reaches the guest.
    Skip,
    /// The byte is delivered to the UART.
    Forward(u8),
    /// The user asked to leave the monitor.
    Quit,
}

/// The escape byte, Ctrl-A.
pub const ESCAPE_BYTE: u8 = 0x01;

/// The byte that quits after an escape, `x`.
pub const QUIT_BYTE: u8 = 0x78;

/// The console reader's reaction to byte `b`, given whether the previous byte
/// was an unanswered escape: the new escape state and the action.
pub open spec fn console_step_spec(is_escape: bool, b: u8) -> (bool, ConsoleAction) {
    if !is_escape && b == ESCAPE_BYTE {
        (true, ConsoleAction::Skip)
    } else if is_escape {
        if b == QUIT_BYTE {
            (false, ConsoleAction::Quit)
        } else if b == ESCAPE_BYTE {
            (false, ConsoleAction::Forward(b))
        } else {
            (false, ConsoleAction::Skip)
        }
    } else {
        (false, ConsoleAction::Forward(b))
    }
}

/// One step of the console reader: Ctrl-A starts an escape; Ctrl-A `x`
/// quits, Ctrl-A Ctrl-A sends one Ctrl-A, Ctrl-A followed by anything else
/// is dropped; every other byte is forwarded as it is.
pub fn console_input_step(is_escape: bool, b: u8) -> (r: (bool, ConsoleAction))
    ensures
        r == console_step_spec(is_escape, b),
{
    if !is_escape && b == ESCAPE_BYTE {
        return (true, ConsoleAction::Skip);
    } else if is_escape {
        if b == QUIT_BYTE {
            return (false, ConsoleAction::Quit);
        } else if b == ESCAPE_BYTE {
            return (false, ConsoleAction::Forward(b));
        } else {
            return (false, ConsoleAction::Skip);
        }
    }
    (false, ConsoleAction::Forward(b))
}


/// Outside an escape every byte but Ctrl-A reaches the guest unchanged;
/// Ctrl-A starts an escape and forwards nothing; after Ctrl-A, `x` quits,
/// a second Ctrl-A forwards one Ctrl-A and anything else is dropped; an
/// escape never outlasts the byte after it.
pub proof fn lemma_console_bytes(is_escape: bool, b: u8)
    ensures
        !is_escape && b != ESCAPE_BYTE ==> console_step_spec(is_escape, b) == (
            false,
            ConsoleAction::Forward(b),
        ),
        !is_escape && b == ESCAPE_BYTE ==> console_step_spec(is_escape, b) == (
            true,
            ConsoleAction::Skip,
        ),
        is_escape ==> !console_step_spec(is_escape, b).0,
        is_escape && b == QUIT_BYTE ==> console_step_spec(is_escape, b).1 == ConsoleAction::Quit,
        is_escape && b == ESCAPE_BYTE ==> console_step_spec(is_escape, b).1
            == ConsoleAction::Forward(ESCAPE_BYTE),
        is_escape && b != QUIT_BYTE && b != ESCAPE_BYTE ==> console_step_spec(is_escape, b).1
            == ConsoleAction::Skip,
        console_step_spec(is_escape, b).1 matches ConsoleAction::Forward(f) ==> f == b,
        console_step_spec(is_escape, b).1 == ConsoleAction::Quit ==> is_escape && b == 0x78,
{
}
} // verus!
