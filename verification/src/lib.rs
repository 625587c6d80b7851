//! Device-mode driver for Synopsys DesignWare USB OTG controllers.
//!
//! The driver offers a USB stack what it needs of a device bus: endpoints
//! are allocated, the controller is brought up, and [`bus::UsbBus::poll`]
//! turns the controller's interrupt flags into events. Packets go out through
//! the transmit FIFOs and come in through one receive buffer per OUT endpoint.
//!
//! The driver never touches memory-mapped registers itself. Every access goes
//! through a [`UsbPeripheral`], of which nothing is assumed, and
//! [`ral::UsbRegisters`] keeps a ghost record of the accesses made. The
//! contracts of the driver say which accesses an operation makes, in which
//! order and with which values, whatever the controller answers.
//!
//! * [`types`]: the plain values exchanged with the USB stack.
//! * [`ral`]: the registers, their fields, and the recorded register file.
//! * [`endpoint_memory`]: receive buffers and the memory they are cut from.
//! * [`endpoint`]: one endpoint slot and its operations.
//! * [`endpoint_allocator`]: the eight slots and how requests are resolved.
//! * [`fifo`]: the partition of the controller's FIFO memory.
//! * [`poll`]: the data phase of a poll.
//! * [`bus`]: the bus controller.

use vstd::prelude::*;

pub mod bus;
pub mod endpoint;
pub mod endpoint_allocator;
pub mod endpoint_memory;
pub mod fifo;
pub mod poll;
pub mod ral;
pub mod types;

pub use crate::bus::UsbBus;

verus! {

/// A device-specific USB peripheral with the register block of a Synopsys OTG
/// controller. Implement this to add support for a new hardware platform.
///
/// Nothing is assumed of what the hardware answers: the driver is verified for
/// every value that `read` may return.
pub trait UsbPeripheral: Send + Sync {
    /// True for high-speed variants of the peripheral, false for full speed.
    const HIGH_SPEED: bool;

    /// Enables the USB device on its peripheral bus.
    fn enable(&mut self);

    /// Reads a register once.
    fn read(&mut self, reg: ral::Register) -> u32
        requires
            reg.valid(),
    ;

    /// Writes a register once.
    fn write(&mut self, reg: ral::Register, value: u32)
        requires
            reg.valid(),
    ;

    /// Returns once `reg & mask` reads as `value`.
    fn wait_for(&mut self, reg: ral::Register, mask: u32, value: u32)
        requires
            reg.valid(),
    ;
}

} // verus!
