//! Registers of the controller, their fields, and the recorded access path.

use vstd::prelude::*;
use crate::UsbPeripheral;

verus! {

/// A register of the controller. Per-endpoint registers and FIFO windows carry
/// the endpoint number.
#[derive(Clone, Copy, Debug, PartialEq, Eq, Hash, Structural)]
pub enum Register {
    /// AHB configuration.
    Gahbcfg,
    /// USB configuration.
    Gusbcfg,
    /// Reset control.
    Grstctl,
    /// Core interrupt status.
    Gintsts,
    /// Core interrupt mask.
    Gintmsk,
    /// Receive status, read without popping.
    Grxstsr,
    /// Receive status, popped by the read.
    Grxstsp,
    /// Receive FIFO size.
    Grxfsiz,
    /// Size and start of transmit FIFO 0. Full-speed parts call it DIEPTXF0,
    /// high-speed parts GNPTXFSIZ.
    Dieptxf0,
    /// General core configuration.
    Gccfg,
    /// Size and start of the transmit FIFO of a non-zero IN endpoint.
    Dieptxf(u8),
    /// Device configuration.
    Dcfg,
    /// Device control.
    Dctl,
    /// Mask of the IN endpoint interrupts.
    Diepmsk,
    /// Mask of the per-endpoint interrupts.
    Daintmsk,
    /// Control register of an IN endpoint.
    Diepctl(u8),
    /// Interrupt register of an IN endpoint.
    Diepint(u8),
    /// Transfer size register of an IN endpoint.
    Dieptsiz(u8),
    /// Transmit FIFO status of an IN endpoint.
    Dtxfsts(u8),
    /// Control register of an OUT endpoint.
    Doepctl(u8),
    /// Interrupt register of an OUT endpoint.
    Doepint(u8),
    /// Transfer size register of an OUT endpoint.
    Doeptsiz(u8),
    /// Power and clock gating control.
    Pcgcctl,
    /// The FIFO window of an endpoint.
    Fifo(u8),
}

/// The controller has room for sixteen endpoints in each direction.
pub const MAX_ENDPOINTS: u8 = 16;

impl Register {
    /// Whether the register exists in the register block.
    pub open spec fn valid(self) -> bool {
        match self {
            Register::Dieptxf(n) => 1 <= n < MAX_ENDPOINTS,
            Register::Diepctl(n) => n < MAX_ENDPOINTS,
            Register::Diepint(n) => n < MAX_ENDPOINTS,
            Register::Dieptsiz(n) => n < MAX_ENDPOINTS,
            Register::Dtxfsts(n) => n < MAX_ENDPOINTS,
            Register::Doepctl(n) => n < MAX_ENDPOINTS,
            Register::Doepint(n) => n < MAX_ENDPOINTS,
            Register::Doeptsiz(n) => n < MAX_ENDPOINTS,
            Register::Fifo(n) => n < MAX_ENDPOINTS,
            _ => true,
        }
    }
}

pub const GAHBCFG_GINT: u32 = 0x0000_0001;

pub const GUSBCFG_TOCAL_MASK: u32 = 0x0000_0007;
pub const GUSBCFG_PHYSEL: u32 = 0x0000_0040;
pub const GUSBCFG_SRPCAP: u32 = 0x0000_0100;
pub const GUSBCFG_TRDT_MASK: u32 = 0x0000_3c00;
pub const GUSBCFG_TRDT_SHIFT: u32 = 10;
pub const GUSBCFG_FDMOD: u32 = 0x4000_0000;

pub const GRSTCTL_RXFFLSH: u32 = 0x0000_0010;
pub const GRSTCTL_TXFFLSH: u32 = 0x0000_0020;
pub const GRSTCTL_TXFNUM_MASK: u32 = 0x0000_07c0;
pub const GRSTCTL_TXFNUM_SHIFT: u32 = 6;
/// The transmit FIFO number that stands for every transmit FIFO.
pub const GRSTCTL_TXFNUM_ALL: u32 = 0x10;
pub const GRSTCTL_AHBIDL: u32 = 0x8000_0000;

pub const GINTSTS_RXFLVL: u32 = 0x0000_0010;
pub const GINTSTS_USBSUSP: u32 = 0x0000_0800;
pub const GINTSTS_USBRST: u32 = 0x0000_1000;
pub const GINTSTS_ENUMDNE: u32 = 0x0000_2000;
pub const GINTSTS_IEPINT: u32 = 0x0004_0000;
pub const GINTSTS_WKUPINT: u32 = 0x8000_0000;

pub const GRXSTS_EPNUM_MASK: u32 = 0x0000_000f;
pub const GRXSTS_BCNT_MASK: u32 = 0x0000_07ff;
pub const GRXSTS_BCNT_SHIFT: u32 = 4;
pub const GRXSTS_PKTSTS_MASK: u32 = 0x0000_000f;
pub const GRXSTS_PKTSTS_SHIFT: u32 = 17;

pub const GCCFG_PWRDWN: u32 = 0x0001_0000;
pub const GCCFG_NOVBUSSENS: u32 = 0x0020_0000;

pub const DCFG_DSPD_MASK: u32 = 0x0000_0003;
pub const DCFG_DSPD_FULL_SPEED: u32 = 0x0000_0003;
pub const DCFG_DAD_MASK: u32 = 0x0000_07f0;
pub const DCFG_DAD_SHIFT: u32 = 4;

pub const DCTL_SDIS: u32 = 0x0000_0002;

pub const DIEPMSK_XFRCM: u32 = 0x0000_0001;

pub const DAINTMSK_IEPM_MASK: u32 = 0x0000_ffff;
pub const DAINTMSK_OEPM_MASK: u32 = 0xffff_0000;

pub const EPCTL_MPSIZ_MASK: u32 = 0x0000_07ff;
pub const EPCTL_MPSIZ0_MASK: u32 = 0x0000_0003;
pub const EPCTL_USBAEP: u32 = 0x0000_8000;
pub const EPCTL_EPTYP_SHIFT: u32 = 18;
pub const EPCTL_STALL: u32 = 0x0020_0000;
pub const EPCTL_TXFNUM_SHIFT: u32 = 22;
pub const EPCTL_CNAK: u32 = 0x0400_0000;
pub const EPCTL_SNAK: u32 = 0x0800_0000;
pub const EPCTL_SD0PID: u32 = 0x1000_0000;
pub const EPCTL_EPDIS: u32 = 0x4000_0000;
pub const EPCTL_EPENA: u32 = 0x8000_0000;

pub const DIEPINT_XFRC: u32 = 0x0000_0001;
/// All ones: written to an interrupt register, it clears every pending
/// interrupt of the endpoint.
pub const EPINT_ALL: u32 = 0xffff_ffff;

pub const EPTSIZ_PKTCNT_MASK: u32 = 0x1ff8_0000;
pub const EPTSIZ_PKTCNT_ONE: u32 = 0x0008_0000;
pub const DIEPTSIZ_MCNT_ONE: u32 = 0x2000_0000;
pub const DOEPTSIZ0_STUPCNT_ONE: u32 = 0x2000_0000;

pub const DTXFSTS_INEPTFSAV_MASK: u32 = 0x0000_ffff;

pub const TXFIFO_DEPTH_SHIFT: u32 = 16;

/// One access to the register file.
pub enum Access {
    /// The register was read once and gave `value`.
    Read { reg: Register, value: u32 },
    /// `value` was written to the register.
    Write { reg: Register, value: u32 },
    /// The register was read, the bits of `clear` were cleared in what it
    /// gave, the bits of `set` were set, and the result was written back.
    Modify { reg: Register, clear: u32, set: u32 },
    /// The driver waited until the bits of `mask` read as `value`.
    Wait { reg: Register, mask: u32, value: u32 },
    /// The peripheral was enabled on its bus.
    PowerOn,
}

/// The register file of one peripheral. Every access that the driver makes
/// goes through it and is appended to its trace.
pub struct UsbRegisters<P: UsbPeripheral> {
    peripheral: P,
    trace: Ghost<Seq<Access>>,
}

impl<P: UsbPeripheral> UsbRegisters<P> {
    /// The accesses made so far, oldest first.
    pub closed spec fn trace(&self) -> Seq<Access> {
        self.trace@
    }

    /// The peripheral behind the register file.
    pub closed spec fn peripheral(&self) -> P {
        self.peripheral
    }

    /// Whether the peripheral is a high-speed part.
    pub open spec fn high_speed() -> bool {
        P::HIGH_SPEED
    }

    /// Takes over the peripheral. No access has been made yet.
    pub fn new(peripheral: P) -> (regs: Self)
        ensures
            regs.trace() == Seq::<Access>::empty(),
            regs.peripheral() == peripheral,
    {
        UsbRegisters { peripheral, trace: Ghost(Seq::empty()) }
    }

    /// Gives the peripheral back.
    pub fn free(self) -> (peripheral: P)
        ensures
            peripheral == self.peripheral(),
    {
        self.peripheral
    }

    /// Whether the peripheral is a high-speed part.
    pub fn is_high_speed(&self) -> (high_speed: bool)
        ensures
            high_speed == Self::high_speed(),
    {
        P::HIGH_SPEED
    }

    /// Enables the peripheral on its bus.
    pub fn power_on(&mut self)
        ensures
            final(self).trace() == old(self).trace().push(Access::PowerOn),
    {
        self.peripheral.enable();
        proof {
            self.trace@ = self.trace@.push(Access::PowerOn);
        }
    }

    /// Reads a register once.
    pub fn read(&mut self, reg: Register) -> (value: u32)
        requires
            reg.valid(),
        ensures
            final(self).trace() == old(self).trace().push(Access::Read { reg, value }),
    {
        let value = self.peripheral.read(reg);
        proof {
            self.trace@ = self.trace@.push(Access::Read { reg, value });
        }
        value
    }

    /// Writes a register once.
    pub fn write(&mut self, reg: Register, value: u32)
        requires
            reg.valid(),
        ensures
            final(self).trace() == old(self).trace().push(Access::Write { reg, value }),
    {
        self.peripheral.write(reg, value);
        proof {
            self.trace@ = self.trace@.push(Access::Write { reg, value });
        }
    }

    /// Reads a register, clears the bits of `clear`, sets the bits of `set`
    /// and writes the result back.
    pub fn modify(&mut self, reg: Register, clear: u32, set: u32)
        requires
            reg.valid(),
        ensures
            final(self).trace() == old(self).trace().push(Access::Modify { reg, clear, set }),
    {
        let value = self.peripheral.read(reg);
        self.peripheral.write(reg, modified(value, clear, set));
        proof {
            self.trace@ = self.trace@.push(Access::Modify { reg, clear, set });
        }
    }

    /// Waits until the bits of `mask` read as `value` in the register.
    pub fn wait_for(&mut self, reg: Register, mask: u32, value: u32)
        requires
            reg.valid(),
        ensures
            final(self).trace() == old(self).trace().push(Access::Wait { reg, mask, value }),
    {
        self.peripheral.wait_for(reg, mask, value);
        proof {
            self.trace@ = self.trace@.push(Access::Wait { reg, mask, value });
        }
    }
}

impl Access {
    /// Whether the access writes to its register.
    pub open spec fn is_write(self) -> bool {
        self is Write || self is Modify
    }
}

/// The number of accesses of a trace that write to a register.
pub open spec fn write_count(trace: Seq<Access>) -> nat
    decreases trace.len(),
{
    if trace.len() == 0 {
        0
    } else if trace.last().is_write() {
        write_count(trace.drop_last()) + 1
    } else {
        write_count(trace.drop_last())
    }
}

/// Whether any bit of `mask` is set in `word`.
pub open spec fn spec_any_set(word: u32, mask: u32) -> bool {
    word & mask != 0
}

/// Tests whether any bit of `mask` is set in `word`.
#[verifier::when_used_as_spec(spec_any_set)]
pub fn any_set(word: u32, mask: u32) -> (set: bool)
    ensures
        set == spec_any_set(word, mask),
{
    word & mask != 0
}

/// The word that a read-modify-write leaves in a register that held `word`:
/// the bits of `clear` are cleared first, then the bits of `set` are set.
pub open spec fn spec_modified(word: u32, clear: u32, set: u32) -> u32 {
    (word & !clear) | set
}

/// Returns the word that a read-modify-write writes back for `word`.
#[verifier::when_used_as_spec(spec_modified)]
pub fn modified(word: u32, clear: u32, set: u32) -> (written: u32)
    ensures
        written == spec_modified(word, clear, set),
{
    (word & !clear) | set
}

} // verus!
