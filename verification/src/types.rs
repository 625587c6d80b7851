//! Plain values exchanged with the upper USB stack.

use vstd::prelude::*;

verus! {

/// Direction of USB traffic, named from the host's point of view.
#[derive(Clone, Copy, Debug, PartialEq, Eq, Hash, Structural)]
pub enum UsbDirection {
    /// Host to device.
    Out,
    /// Device to host.
    In,
}

/// An endpoint number paired with a direction. IN and OUT endpoints with the
/// same number are distinct endpoints.
#[derive(Clone, Copy, Debug, PartialEq, Eq, Hash, Structural)]
pub struct EndpointAddress {
    pub number: u8,
    pub direction: UsbDirection,
}

impl EndpointAddress {
    /// Builds an address from its two parts.
    pub fn from_parts(number: u8, direction: UsbDirection) -> (address: EndpointAddress)
        ensures
            address == (EndpointAddress { number, direction }),
    {
        EndpointAddress { number, direction }
    }

    /// The endpoint number.
    pub fn number(&self) -> (number: u8)
        ensures
            number == self.number,
    {
        self.number
    }

    /// The direction of the endpoint.
    pub fn direction(&self) -> (direction: UsbDirection)
        ensures
            direction == self.direction,
    {
        self.direction
    }
}

/// USB transfer type of an endpoint.
#[derive(Clone, Copy, Debug, PartialEq, Eq, Hash, Structural)]
pub enum EndpointType {
    Control,
    Isochronous,
    Bulk,
    Interrupt,
}

impl EndpointType {
    /// The two-bit code of the transfer type, as endpoint descriptors and the
    /// controller's endpoint control registers encode it.
    pub open spec fn spec_bits(self) -> u32 {
        match self {
            EndpointType::Control => 0,
            EndpointType::Isochronous => 1,
            EndpointType::Bulk => 2,
            EndpointType::Interrupt => 3,
        }
    }

    /// Returns the two-bit code of the transfer type.
    #[verifier::when_used_as_spec(spec_bits)]
    pub fn bits(self) -> (code: u32)
        ensures
            code == self.spec_bits(),
    {
        match self {
            EndpointType::Control => 0,
            EndpointType::Isochronous => 1,
            EndpointType::Bulk => 2,
            EndpointType::Interrupt => 3,
        }
    }
}

/// Errors reported to the upper stack.
#[derive(Clone, Copy, Debug, PartialEq, Eq, Hash, Structural)]
pub enum UsbError {
    /// Nothing to read, or the endpoint cannot take a packet now.
    WouldBlock,
    /// A packet does not fit where it should go.
    BufferOverflow,
    /// No free endpoint slot is left.
    EndpointOverflow,
    /// The receive buffer memory is exhausted.
    OutOfMemory,
    /// The slot is unconfigured, of the wrong direction, taken, or out of range.
    InvalidEndpoint,
}

/// What one call of `poll` found.
#[derive(Clone, Copy, Debug, PartialEq, Eq, Hash, Structural)]
pub enum PollResult {
    /// Nothing to report.
    NoEvent,
    /// The bus was reset and the speed enumeration is done.
    Reset,
    /// Packets were received or sent. Bit `n` of each mask stands for endpoint `n`.
    Data { ep_out: u16, ep_in_complete: u16, ep_setup: u16 },
    /// The bus was suspended.
    Suspend,
    /// The bus was resumed.
    Resume,
}

/// Marks an endpoint that carries audio streaming data.
#[derive(Clone, Copy, Debug, PartialEq, Eq, Hash, Structural)]
pub struct AudioStreamingExtension {
    pub synchronization_address: Option<EndpointAddress>,
}

/// A request for an endpoint.
#[derive(Clone, Copy, Debug, PartialEq, Eq, Hash)]
pub struct EndpointConfig {
    /// The endpoint number asked for, or `None` for any free one.
    pub number: Option<u8>,
    pub ep_type: EndpointType,
    pub max_packet_size: u16,
    pub interval: u8,
    pub is_audio_streaming: bool,
}

/// What an endpoint tells the host about itself.
#[derive(Clone, Copy, Debug, PartialEq, Eq, Hash)]
pub struct EndpointDescriptor {
    pub address: EndpointAddress,
    pub ep_type: EndpointType,
    pub max_packet_size: u16,
    pub interval: u8,
    pub audio_streaming_extension: Option<AudioStreamingExtension>,
}

} // verus!
