//! One endpoint slot: its frozen configuration, its receive buffer, and the
//! register accesses that its operations make.

use vstd::prelude::*;
use crate::endpoint_memory::{
    fifo_reads, words_for, BufferView, EndpointBuffer, EndpointBufferState,
};
use crate::ral::{
    any_set, spec_modified, write_count, Access, Register, UsbRegisters, DIEPTSIZ_MCNT_ONE, DOEPTSIZ0_STUPCNT_ONE,
    DTXFSTS_INEPTFSAV_MASK, EPCTL_CNAK, EPCTL_EPDIS, EPCTL_EPENA, EPCTL_EPTYP_SHIFT,
    EPCTL_MPSIZ0_MASK, EPCTL_MPSIZ_MASK, EPCTL_SD0PID, EPCTL_SNAK, EPCTL_STALL,
    EPCTL_TXFNUM_SHIFT, EPCTL_USBAEP, EPINT_ALL, EPTSIZ_PKTCNT_ONE, MAX_ENDPOINTS,
};
use crate::types::{
    AudioStreamingExtension, EndpointAddress, EndpointConfig, EndpointDescriptor, EndpointType,
    UsbDirection, UsbError,
};
use crate::UsbPeripheral;

verus! {

/// The configuration of an endpoint. It does not change once the slot holds it.
#[derive(Clone, Copy, Debug, PartialEq, Eq, Hash)]
pub struct SynopsysEndpointConfiguration {
    pub ep_type: EndpointType,
    pub max_packet_size: u16,
    pub interval: u8,
    pub audio_streaming_extension: Option<AudioStreamingExtension>,
}

/// The configuration that a request asks for.
pub open spec fn configuration_of(config: EndpointConfig) -> SynopsysEndpointConfiguration {
    SynopsysEndpointConfiguration {
        ep_type: config.ep_type,
        max_packet_size: config.max_packet_size,
        interval: config.interval,
        audio_streaming_extension: if config.is_audio_streaming {
            Some(AudioStreamingExtension { synchronization_address: None })
        } else {
            None
        },
    }
}

/// The size code of the control endpoint: 64, 32, 16 and 8 bytes have the
/// codes 0 to 3, and no other size has one.
pub open spec fn spec_control_size_code(max_packet_size: u16) -> Option<u32> {
    if max_packet_size == 64 {
        Some(0u32)
    } else if max_packet_size == 32 {
        Some(1u32)
    } else if max_packet_size == 16 {
        Some(2u32)
    } else if max_packet_size == 8 {
        Some(3u32)
    } else {
        None
    }
}

/// Returns the size code of the control endpoint, if the size has one.
#[verifier::when_used_as_spec(spec_control_size_code)]
pub fn control_size_code(max_packet_size: u16) -> (code: Option<u32>)
    ensures
        code == spec_control_size_code(max_packet_size),
{
    if max_packet_size == 64 {
        Some(0)
    } else if max_packet_size == 32 {
        Some(1)
    } else if max_packet_size == 16 {
        Some(2)
    } else if max_packet_size == 8 {
        Some(3)
    } else {
        None
    }
}

/// The control word that arms a non-zero IN endpoint: NAK set, endpoint
/// active, data PID reset, the transfer type, the transmit FIFO of the same
/// number, and the packet size.
pub open spec fn spec_in_control_word(number: u8, ep_type: EndpointType, max_packet_size: u16) -> u32 {
    EPCTL_SNAK | EPCTL_USBAEP | (ep_type.spec_bits() << EPCTL_EPTYP_SHIFT) | EPCTL_SD0PID | ((
    number as u32) << EPCTL_TXFNUM_SHIFT) | ((max_packet_size as u32) & EPCTL_MPSIZ_MASK)
}

/// Builds the control word that arms a non-zero IN endpoint.
#[verifier::when_used_as_spec(spec_in_control_word)]
pub fn in_control_word(number: u8, ep_type: EndpointType, max_packet_size: u16) -> (word: u32)
    ensures
        word == spec_in_control_word(number, ep_type, max_packet_size),
{
    EPCTL_SNAK | EPCTL_USBAEP | (ep_type.bits() << EPCTL_EPTYP_SHIFT) | EPCTL_SD0PID | ((
    number as u32) << EPCTL_TXFNUM_SHIFT) | ((max_packet_size as u32) & EPCTL_MPSIZ_MASK)
}

/// The control word that arms a non-zero OUT endpoint: data PID reset, NAK
/// cleared, endpoint enabled and active, the transfer type and the packet size.
pub open spec fn spec_out_control_word(ep_type: EndpointType, max_packet_size: u16) -> u32 {
    EPCTL_SD0PID | EPCTL_CNAK | EPCTL_EPENA | EPCTL_USBAEP | (ep_type.spec_bits()
        << EPCTL_EPTYP_SHIFT) | ((max_packet_size as u32) & EPCTL_MPSIZ_MASK)
}

/// Builds the control word that arms a non-zero OUT endpoint.
#[verifier::when_used_as_spec(spec_out_control_word)]
pub fn out_control_word(ep_type: EndpointType, max_packet_size: u16) -> (word: u32)
    ensures
        word == spec_out_control_word(ep_type, max_packet_size),
{
    EPCTL_SD0PID | EPCTL_CNAK | EPCTL_EPENA | EPCTL_USBAEP | (ep_type.bits() << EPCTL_EPTYP_SHIFT)
        | ((max_packet_size as u32) & EPCTL_MPSIZ_MASK)
}

/// The transfer size word of a single packet of `len` bytes. High-speed parts
/// also want the packet count per frame.
pub open spec fn spec_in_transfer_word(len: u16, high_speed: bool) -> u32 {
    if high_speed {
        DIEPTSIZ_MCNT_ONE | EPTSIZ_PKTCNT_ONE | (len as u32)
    } else {
        EPTSIZ_PKTCNT_ONE | (len as u32)
    }
}

/// Builds the transfer size word of a single packet of `len` bytes.
#[verifier::when_used_as_spec(spec_in_transfer_word)]
pub fn in_transfer_word(len: u16, high_speed: bool) -> (word: u32)
    ensures
        word == spec_in_transfer_word(len, high_speed),
{
    if high_speed {
        DIEPTSIZ_MCNT_ONE | EPTSIZ_PKTCNT_ONE | (len as u32)
    } else {
        EPTSIZ_PKTCNT_ONE | (len as u32)
    }
}

/// Byte `i` of a packet as a word, or zero past its end.
pub open spec fn padded_byte(data: Seq<u8>, i: int) -> u32 {
    if 0 <= i < data.len() {
        data[i] as u32
    } else {
        0
    }
}

/// Word `j` of a packet: four bytes, the first in the least significant
/// place, with zeros after the last byte of the packet.
pub open spec fn packed_word(data: Seq<u8>, j: int) -> u32 {
    padded_byte(data, 4 * j) | (padded_byte(data, 4 * j + 1) << 8u32) | (padded_byte(
        data,
        4 * j + 2,
    ) << 16u32) | (padded_byte(data, 4 * j + 3) << 24u32)
}

/// The writes that push a packet into the FIFO window of endpoint `channel`.
pub open spec fn fifo_writes(channel: u8, data: Seq<u8>) -> Seq<Access> {
    Seq::new(
        words_for(data.len()),
        |j: int| Access::Write { reg: Register::Fifo(channel), value: packed_word(data, j) },
    )
}

/// An endpoint slot as its users see it.
pub struct EndpointView {
    pub address: EndpointAddress,
    /// The configuration, once the slot is initialized.
    pub configuration: Option<SynopsysEndpointConfiguration>,
    /// The receive buffer, which only OUT slots have.
    pub buffer: Option<BufferView>,
}

impl EndpointView {
    /// IN slots never carry a buffer; an initialized OUT slot carries one
    /// that holds a packet of the largest size.
    pub open spec fn wf(self) -> bool {
        &&& self.address.number < MAX_ENDPOINTS
        &&& self.address.direction is In ==> self.buffer is None
        &&& self.address.direction is Out && self.configuration is Some ==> self.buffer is Some
        &&& self.buffer matches Some(buffer) ==> {
            &&& self.max_packet_size() <= buffer.capacity
            &&& buffer.packet.len() <= buffer.capacity
            &&& buffer.state is Empty ==> buffer.packet.len() == 0
            &&& buffer.state is DataSetup ==> buffer.packet.len() == 8
        }
    }

    /// Whether the slot has its configuration.
    pub open spec fn is_initialized(self) -> bool {
        self.configuration is Some
    }

    /// The transfer type; a control endpoint before initialization.
    pub open spec fn ep_type(self) -> EndpointType {
        match self.configuration {
            Some(configuration) => configuration.ep_type,
            None => EndpointType::Control,
        }
    }

    /// The largest packet in bytes; zero before initialization.
    pub open spec fn max_packet_size(self) -> u16 {
        match self.configuration {
            Some(configuration) => configuration.max_packet_size,
            None => 0,
        }
    }

    /// The descriptor: that of the configuration, or that of a control
    /// endpoint without room for any packet before initialization.
    pub open spec fn descriptor(self) -> EndpointDescriptor {
        match self.configuration {
            Some(configuration) => EndpointDescriptor {
                address: self.address,
                ep_type: configuration.ep_type,
                max_packet_size: configuration.max_packet_size,
                interval: configuration.interval,
                audio_streaming_extension: configuration.audio_streaming_extension,
            },
            None => EndpointDescriptor {
                address: self.address,
                ep_type: EndpointType::Control,
                max_packet_size: 0,
                interval: 0,
                audio_streaming_extension: None,
            },
        }
    }

    /// The words of FIFO memory that the largest packet takes; zero before
    /// initialization.
    pub open spec fn fifo_size_words(self) -> nat {
        if self.is_initialized() {
            words_for(self.max_packet_size() as nat)
        } else {
            0
        }
    }

    /// What the buffer holds; `Empty` for a slot without one.
    pub open spec fn buffer_state(self) -> EndpointBufferState {
        match self.buffer {
            Some(buffer) => buffer.state,
            None => EndpointBufferState::Empty,
        }
    }

    /// The control register of the endpoint.
    pub open spec fn control_register(self) -> Register {
        match self.address.direction {
            UsbDirection::In => Register::Diepctl(self.address.number),
            UsbDirection::Out => Register::Doepctl(self.address.number),
        }
    }

    /// The interrupt register of the endpoint.
    pub open spec fn interrupt_register(self) -> Register {
        match self.address.direction {
            UsbDirection::In => Register::Diepint(self.address.number),
            UsbDirection::Out => Register::Doepint(self.address.number),
        }
    }

    /// Endpoint 0 can only be enabled with a packet size of 8, 16, 32 or 64.
    pub open spec fn can_enable(self) -> bool {
        self.address.number == 0 ==> spec_control_size_code(self.max_packet_size()) is Some
    }

    /// The accesses that enable the endpoint.
    pub open spec fn enable_trace(self) -> Seq<Access> {
        let number = self.address.number;
        let size = self.max_packet_size();
        if number == 0 {
            let code = spec_control_size_code(size).unwrap();
            match self.address.direction {
                UsbDirection::In => seq![
                    Access::Write { reg: Register::Diepctl(0), value: code | EPCTL_SNAK },
                    Access::Write { reg: Register::Dieptsiz(0), value: size as u32 },
                ],
                UsbDirection::Out => seq![
                    Access::Write {
                        reg: Register::Doeptsiz(0),
                        value: DOEPTSIZ0_STUPCNT_ONE | EPTSIZ_PKTCNT_ONE | (size as u32),
                    },
                    Access::Modify {
                        reg: Register::Doepctl(0),
                        clear: EPCTL_MPSIZ0_MASK | EPCTL_EPENA | EPCTL_CNAK,
                        set: code | EPCTL_EPENA | EPCTL_CNAK,
                    },
                ],
            }
        } else {
            match self.address.direction {
                UsbDirection::In => seq![
                    Access::Write {
                        reg: Register::Diepctl(number),
                        value: spec_in_control_word(number, self.ep_type(), size),
                    },
                ],
                UsbDirection::Out => seq![
                    Access::Write {
                        reg: Register::Doepctl(number),
                        value: spec_out_control_word(self.ep_type(), size),
                    },
                ],
            }
        }
    }

    /// The accesses that disable the endpoint, where `control` is what its
    /// control register gave: the endpoint is deactivated, a non-zero endpoint
    /// that is still enabled is told to stop, and all its pending interrupts
    /// are cleared by writing its interrupt register with all ones.
    pub open spec fn disable_trace(self, control: u32) -> Seq<Access> {
        let reg = self.control_register();
        let head = seq![
            Access::Modify { reg, clear: EPCTL_USBAEP, set: 0 },
            Access::Read { reg, value: control },
        ];
        let stop = if any_set(control, EPCTL_EPENA) && self.address.number != 0 {
            seq![Access::Modify { reg, clear: EPCTL_EPDIS, set: EPCTL_EPDIS }]
        } else {
            Seq::<Access>::empty()
        };
        head + stop + seq![Access::Write { reg: self.interrupt_register(), value: EPINT_ALL }]
    }

    /// Whether the control word `control` says that the endpoint is stalled.
    pub open spec fn control_says_stalled(control: u32) -> bool {
        any_set(control, EPCTL_STALL)
    }

    /// The accesses of a stall request, where `control` is what the control
    /// register gave: none on a slot that is not initialized; else the read,
    /// and a change of the stall bit only if it differs from the request.
    pub open spec fn stall_trace(self, control: u32, stalled: bool) -> Seq<Access> {
        let reg = self.control_register();
        if !self.is_initialized() {
            Seq::<Access>::empty()
        } else if Self::control_says_stalled(control) == stalled {
            seq![Access::Read { reg, value: control }]
        } else {
            seq![
                Access::Read { reg, value: control },
                Access::Modify {
                    reg,
                    clear: EPCTL_STALL,
                    set: if stalled {
                        EPCTL_STALL
                    } else {
                        0
                    },
                },
            ]
        }
    }

    /// What a write of `data` returns, where `control` is what the control
    /// register gave and `space` what the transmit FIFO status gave.
    pub open spec fn write_result(self, data: Seq<u8>, control: u32, space: u32) -> Result<
        (),
        UsbError,
    > {
        if !self.is_initialized() || self.address.direction is Out {
            Err(UsbError::InvalidEndpoint)
        } else if self.address.number != 0 && any_set(control, EPCTL_EPENA) {
            Err(UsbError::WouldBlock)
        } else if data.len() > self.max_packet_size() {
            Err(UsbError::BufferOverflow)
        } else if data.len() > 0 && words_for(data.len()) > (space & DTXFSTS_INEPTFSAV_MASK) {
            Err(UsbError::WouldBlock)
        } else {
            Ok(())
        }
    }

    /// The accesses of a write of `data`: the control register is read on a
    /// non-zero endpoint, the FIFO status for a packet that is not empty and
    /// not too long, and a packet that is accepted is announced and pushed.
    pub open spec fn write_trace(
        self,
        data: Seq<u8>,
        control: u32,
        space: u32,
        high_speed: bool,
    ) -> Seq<Access> {
        let number = self.address.number;
        let busy = if number != 0 {
            seq![Access::Read { reg: Register::Diepctl(number), value: control }]
        } else {
            Seq::<Access>::empty()
        };
        let room = if data.len() > 0 {
            seq![Access::Read { reg: Register::Dtxfsts(number), value: space }]
        } else {
            Seq::<Access>::empty()
        };
        if !self.is_initialized() || self.address.direction is Out {
            Seq::<Access>::empty()
        } else if number != 0 && any_set(control, EPCTL_EPENA) {
            busy
        } else if data.len() > self.max_packet_size() {
            busy
        } else if self.write_result(data, control, space) is Err {
            busy + room
        } else {
            busy + room + seq![
                Access::Write {
                    reg: Register::Dieptsiz(number),
                    value: spec_in_transfer_word(data.len() as u16, high_speed),
                },
                Access::Modify {
                    reg: Register::Diepctl(number),
                    clear: EPCTL_CNAK | EPCTL_EPENA,
                    set: EPCTL_CNAK | EPCTL_EPENA,
                },
            ] + fifo_writes(number, data)
        }
    }

    /// Whether the slot has a buffer that can take in a packet of
    /// `byte_count` bytes.
    pub open spec fn takes(self, byte_count: nat, is_setup: bool) -> bool {
        self.buffer matches Some(buffer) && buffer.accepts(byte_count, is_setup)
    }

    /// The slot after its buffer took in the packet that `words` carry.
    pub open spec fn filled(self, words: Seq<u32>, byte_count: nat, is_setup: bool) -> EndpointView {
        EndpointView {
            buffer: Some(self.buffer.unwrap().filled(words, byte_count, is_setup)),
            ..self
        }
    }

    /// What a read into a destination of `room` bytes returns:
    /// `InvalidEndpoint` on a slot that is not an initialized OUT endpoint,
    /// and else what the buffer returns.
    pub open spec fn read_result(self, room: nat) -> Result<usize, UsbError> {
        if !self.is_initialized() || self.address.direction is In || self.buffer is None {
            Err(UsbError::InvalidEndpoint)
        } else {
            self.buffer.unwrap().read_result(room)
        }
    }

    /// The slot after a read into a destination of `room` bytes.
    pub open spec fn after_read(self, room: nat) -> EndpointView {
        if self.read_result(room) is Ok {
            EndpointView { buffer: Some(self.buffer.unwrap().emptied()), ..self }
        } else {
            self
        }
    }

    /// The destination after a read into it.
    pub open spec fn read_into(self, dest: Seq<u8>) -> Seq<u8> {
        if self.read_result(dest.len()) is Ok {
            self.buffer.unwrap().read_into(dest)
        } else {
            dest
        }
    }
}

/// Whatever the control register gave, disabling an endpoint ends with one
/// write of all ones to the interrupt register of the endpoint, and tells
/// the endpoint to stop exactly if it read as enabled and is not endpoint 0.
pub proof fn lemma_disable_clears_every_interrupt(slot: EndpointView, control: u32)
    ensures
        slot.disable_trace(control).last() == (Access::Write {
            reg: slot.interrupt_register(),
            value: 0xffff_ffff,
        }),
        slot.disable_trace(control).len() == (if any_set(control, EPCTL_EPENA)
            && slot.address.number != 0 {
            4nat
        } else {
            3nat
        }),
        slot.disable_trace(control)[0] == (Access::Modify {
            reg: slot.control_register(),
            clear: EPCTL_USBAEP,
            set: 0,
        }),
        any_set(control, EPCTL_EPENA) && slot.address.number != 0 ==> slot.disable_trace(
            control,
        )[2] == (Access::Modify {
            reg: slot.control_register(),
            clear: EPCTL_EPDIS,
            set: EPCTL_EPDIS,
        }),
{
}

/// What a stall request leaves in a control register that held `control`,
/// if the register keeps what is written to it.
pub open spec fn stall_settled(control: u32, stalled: bool) -> u32 {
    if EndpointView::control_says_stalled(control) == stalled {
        control
    } else {
        spec_modified(
            control,
            EPCTL_STALL,
            if stalled {
                EPCTL_STALL
            } else {
                0
            },
        )
    }
}

/// A stall request writes at most once, and exactly once when the endpoint
/// is not yet as asked. Afterwards the control register says what was asked,
/// and the same request again only reads: two equal requests in a row write
/// as often as the first alone.
pub proof fn lemma_stall_idempotent(slot: EndpointView, control: u32, stalled: bool)
    requires
        slot.is_initialized(),
    ensures
        write_count(slot.stall_trace(control, stalled)) == (if EndpointView::control_says_stalled(
            control,
        ) == stalled {
            0nat
        } else {
            1nat
        }),
        EndpointView::control_says_stalled(stall_settled(control, stalled)) == stalled,
        slot.stall_trace(stall_settled(control, stalled), stalled) == seq![
            Access::Read { reg: slot.control_register(), value: stall_settled(control, stalled) },
        ],
        write_count(
            slot.stall_trace(control, stalled) + slot.stall_trace(
                stall_settled(control, stalled),
                stalled,
            ),
        ) == write_count(slot.stall_trace(control, stalled)),
{
    assert(((control & !0x0020_0000u32) | 0x0020_0000u32) & 0x0020_0000u32 != 0) by (bit_vector);
    assert(((control & !0x0020_0000u32) | 0u32) & 0x0020_0000u32 == 0) by (bit_vector);
    reveal_with_fuel(write_count, 4);
}

/// While the control register of a non-zero IN endpoint holds what an
/// accepted write left there, the next write would block, whatever its data
/// and whatever room the transmit FIFO has.
pub proof fn lemma_write_backpressure(
    slot: EndpointView,
    first: Seq<u8>,
    control: u32,
    space: u32,
    second: Seq<u8>,
    later_space: u32,
)
    requires
        slot.address.number != 0,
        slot.write_result(first, control, space) is Ok,
    ensures
        slot.write_result(
            second,
            spec_modified(control, EPCTL_CNAK | EPCTL_EPENA, EPCTL_CNAK | EPCTL_EPENA),
            later_space,
        ) == Err::<(), UsbError>(UsbError::WouldBlock),
{
    assert(((control & !(0x0400_0000u32 | 0x8000_0000u32)) | (0x0400_0000u32 | 0x8000_0000u32))
        & 0x8000_0000u32 != 0) by (bit_vector);
}

/// One endpoint slot: an address, the configuration once the slot is
/// initialized, and for OUT endpoints the receive buffer.
pub struct SynopsysEndpoint {
    address: EndpointAddress,
    configuration: Option<SynopsysEndpointConfiguration>,
    buffer: Option<EndpointBuffer>,
}

impl View for SynopsysEndpoint {
    type V = EndpointView;

    closed spec fn view(&self) -> EndpointView {
        EndpointView {
            address: self.address,
            configuration: self.configuration,
            buffer: match self.buffer {
                Some(buffer) => Some(buffer@),
                None => None,
            },
        }
    }
}

impl SynopsysEndpoint {
    /// The slot keeps the invariant of its view, and so does its buffer.
    pub closed spec fn wf(&self) -> bool {
        &&& self@.wf()
        &&& self.buffer matches Some(buffer) ==> buffer.wf()
    }

    /// A well-formed slot has a well-formed view.
    pub proof fn lemma_wf_view(&self)
        requires
            self.wf(),
        ensures
            self@.wf(),
    {
    }

    /// A slot that is not initialized yet.
    pub fn new(address: EndpointAddress) -> (slot: SynopsysEndpoint)
        requires
            address.number < MAX_ENDPOINTS,
        ensures
            slot.wf(),
            slot@ == (EndpointView { address, configuration: None, buffer: None }),
    {
        SynopsysEndpoint { address, configuration: None, buffer: None }
    }

    /// Gives the slot its configuration and, for an OUT endpoint, its buffer.
    pub fn initialize(
        &mut self,
        direction: UsbDirection,
        config: &EndpointConfig,
        buffer: Option<EndpointBuffer>,
    )
        requires
            old(self).wf(),
            direction == old(self)@.address.direction,
            direction is Out <==> buffer is Some,
            buffer matches Some(b) ==> b.wf() && b@.state is Empty && config.max_packet_size
                <= b@.capacity,
        ensures
            final(self).wf(),
            final(self)@ == (EndpointView {
                address: old(self)@.address,
                configuration: Some(configuration_of(*config)),
                buffer: match buffer {
                    Some(b) => Some(b@),
                    None => None,
                },
            }),
            final(self)@.descriptor() == (EndpointDescriptor {
                address: old(self)@.address,
                ep_type: config.ep_type,
                max_packet_size: config.max_packet_size,
                interval: config.interval,
                audio_streaming_extension: configuration_of(*config).audio_streaming_extension,
            }),
    {
        let audio_streaming_extension = if config.is_audio_streaming {
            Some(AudioStreamingExtension { synchronization_address: None })
        } else {
            None
        };
        self.configuration = Some(
            SynopsysEndpointConfiguration {
                ep_type: config.ep_type,
                max_packet_size: config.max_packet_size,
                interval: config.interval,
                audio_streaming_extension,
            },
        );
        proof {
            if let Some(b) = &buffer {
                b.lemma_wf_view();
            }
        }
        match direction {
            UsbDirection::Out => {
                self.buffer = buffer;
            },
            UsbDirection::In => {},
        }
    }

    /// Whether the slot has its configuration.
    pub fn is_initialized(&self) -> (initialized: bool)
        ensures
            initialized == self@.is_initialized(),
    {
        self.configuration.is_some()
    }

    /// What the buffer holds; `Empty` for a slot without one.
    pub fn buffer_state(&self) -> (state: EndpointBufferState)
        ensures
            state == self@.buffer_state(),
    {
        match &self.buffer {
            Some(buffer) => buffer.state(),
            None => EndpointBufferState::Empty,
        }
    }

    /// The words of FIFO memory that the largest packet takes; zero before
    /// initialization.
    pub fn fifo_size_words(&self) -> (words: u32)
        ensures
            words == self@.fifo_size_words(),
    {
        if self.is_initialized() {
            (self.max_packet_size() as u32 + 3) / 4
        } else {
            0
        }
    }

    /// The descriptor of the endpoint.
    pub fn descriptor(&self) -> (descriptor: EndpointDescriptor)
        ensures
            descriptor == self@.descriptor(),
    {
        match self.configuration {
            Some(configuration) => EndpointDescriptor {
                address: self.address,
                ep_type: configuration.ep_type,
                max_packet_size: configuration.max_packet_size,
                interval: configuration.interval,
                audio_streaming_extension: configuration.audio_streaming_extension,
            },
            None => EndpointDescriptor {
                address: self.address,
                ep_type: EndpointType::Control,
                max_packet_size: 0,
                interval: 0,
                audio_streaming_extension: None,
            },
        }
    }

    /// The address of the endpoint.
    pub fn address(&self) -> (address: EndpointAddress)
        ensures
            address == self@.address,
    {
        self.address
    }

    /// The transfer type of the endpoint.
    pub fn ep_type(&self) -> (ep_type: EndpointType)
        ensures
            ep_type == self@.ep_type(),
    {
        self.descriptor().ep_type
    }

    /// The largest packet of the endpoint in bytes.
    pub fn max_packet_size(&self) -> (size: u16)
        ensures
            size == self@.max_packet_size(),
    {
        self.descriptor().max_packet_size
    }

    /// The polling interval of the endpoint.
    pub fn interval(&self) -> (interval: u8)
        ensures
            interval == self@.descriptor().interval,
    {
        self.descriptor().interval
    }

    /// Whether `enable` can be called: endpoint 0 needs a packet size of 8,
    /// 16, 32 or 64.
    pub fn can_enable(&self) -> (ok: bool)
        ensures
            ok == self@.can_enable(),
    {
        self.address.number != 0 || control_size_code(self.max_packet_size()).is_some()
    }

    /// Programs the configuration of the endpoint into its registers.
    pub fn enable<P: UsbPeripheral>(&self, regs: &mut UsbRegisters<P>)
        requires
            self.wf(),
            self@.can_enable(),
        ensures
            final(regs).trace() == old(regs).trace() + self@.enable_trace(),
    {
        let number = self.address.number;
        let size = self.max_packet_size();
        if number == 0 {
            let code = match control_size_code(size) {
                Some(code) => code,
                None => 0,
            };
            match self.address.direction {
                UsbDirection::In => {
                    regs.write(Register::Diepctl(0), code | EPCTL_SNAK);
                    regs.write(Register::Dieptsiz(0), size as u32);
                },
                UsbDirection::Out => {
                    regs.write(
                        Register::Doeptsiz(0),
                        DOEPTSIZ0_STUPCNT_ONE | EPTSIZ_PKTCNT_ONE | (size as u32),
                    );
                    regs.modify(
                        Register::Doepctl(0),
                        EPCTL_MPSIZ0_MASK | EPCTL_EPENA | EPCTL_CNAK,
                        code | EPCTL_EPENA | EPCTL_CNAK,
                    );
                },
            }
        } else {
            match self.address.direction {
                UsbDirection::In => {
                    regs.write(
                        Register::Diepctl(number),
                        in_control_word(number, self.ep_type(), size),
                    );
                },
                UsbDirection::Out => {
                    regs.write(Register::Doepctl(number), out_control_word(self.ep_type(), size));
                },
            }
        }
    }

    /// Disables the endpoint: it is deactivated, a non-zero endpoint that is
    /// still enabled is told to stop, and its interrupt register is written
    /// with all ones.
    pub fn disable<P: UsbPeripheral>(&self, regs: &mut UsbRegisters<P>)
        requires
            self.wf(),
        ensures
            exists|control: u32|
                final(regs).trace() == old(regs).trace() + #[trigger] self@.disable_trace(control),
    {
        let control_register = self.control_register();
        regs.modify(control_register, EPCTL_USBAEP, 0);
        let control = regs.read(control_register);
        if any_set(control, EPCTL_EPENA) && self.address.number != 0 {
            regs.modify(control_register, EPCTL_EPDIS, EPCTL_EPDIS);
        }
        regs.write(self.interrupt_register(), EPINT_ALL);
        assert(regs.trace() =~= old(regs).trace() + self@.disable_trace(control));
    }

    /// Sets or clears the stall condition of the endpoint. Nothing is done on
    /// a slot that is not initialized, and nothing is written when the
    /// endpoint is already as asked.
    pub fn set_stalled<P: UsbPeripheral>(&self, regs: &mut UsbRegisters<P>, stalled: bool)
        requires
            self.wf(),
        ensures
            exists|control: u32|
                final(regs).trace() == old(regs).trace() + #[trigger] self@.stall_trace(
                    control,
                    stalled,
                ),
    {
        if !self.is_initialized() {
            assert(regs.trace() =~= old(regs).trace() + self@.stall_trace(0, stalled));
            return ;
        }
        let control_register = self.control_register();
        let control = regs.read(control_register);
        if any_set(control, EPCTL_STALL) != stalled {
            let set = if stalled {
                EPCTL_STALL
            } else {
                0
            };
            regs.modify(control_register, EPCTL_STALL, set);
        }
        assert(regs.trace() =~= old(regs).trace() + self@.stall_trace(control, stalled));
    }

    /// Whether the stall condition is set: the stall bit of the one word that
    /// is read from the control register.
    pub fn is_stalled<P: UsbPeripheral>(&self, regs: &mut UsbRegisters<P>) -> (stalled: bool)
        requires
            self.wf(),
        ensures
            exists|control: u32|
                {
                    &&& final(regs).trace() == old(regs).trace().push(
                        Access::Read { reg: self@.control_register(), value: control },
                    )
                    &&& stalled == #[trigger] EndpointView::control_says_stalled(control)
                },
    {
        let control = regs.read(self.control_register());
        let stalled = any_set(control, EPCTL_STALL);
        assert(stalled == EndpointView::control_says_stalled(control));
        stalled
    }

    /// Takes a packet of `byte_count` bytes for this endpoint out of the
    /// receive FIFO, through the window of the endpoint. Nothing is read, and
    /// the slot is left as it is, unless the slot has an empty buffer that
    /// the packet fits.
    pub fn receive<P: UsbPeripheral>(
        &mut self,
        regs: &mut UsbRegisters<P>,
        byte_count: u16,
        is_setup: bool,
    )
        requires
            old(self).wf(),
        ensures
            final(self).wf(),
            !old(self)@.takes(byte_count as nat, is_setup) ==> {
                &&& final(self)@ == old(self)@
                &&& final(regs).trace() == old(regs).trace()
            },
            old(self)@.takes(byte_count as nat, is_setup) ==> exists|words: Seq<u32>|
                {
                    &&& words.len() == words_for(byte_count as nat)
                    &&& final(regs).trace() == old(regs).trace() + #[trigger] fifo_reads(
                        old(self)@.address.number,
                        words,
                    )
                    &&& final(self)@ == old(self)@.filled(words, byte_count as nat, is_setup)
                },
    {
        let number = self.address.number;
        match &mut self.buffer {
            Some(buffer) => {
                let _ = buffer.fill_from_fifo(regs, number, byte_count, is_setup);
                proof {
                    buffer.lemma_wf_view();
                }
            },
            None => {},
        }
    }

    /// Takes the pending packet out of the buffer of an OUT endpoint and
    /// returns its length.
    pub fn read(&mut self, data: &mut [u8]) -> (result: Result<usize, UsbError>)
        requires
            old(self).wf(),
        ensures
            final(self).wf(),
            result == old(self)@.read_result(old(data)@.len()),
            final(self)@ == old(self)@.after_read(old(data)@.len()),
            final(data)@ == old(self)@.read_into(old(data)@),
            final(data)@.len() == old(data)@.len(),
    {
        if !self.is_initialized() {
            return Err(UsbError::InvalidEndpoint);
        }
        match self.address.direction {
            UsbDirection::In => Err(UsbError::InvalidEndpoint),
            UsbDirection::Out => {
                match &mut self.buffer {
                    Some(buffer) => {
                        proof {
                            buffer.lemma_wf_view();
                        }
                        buffer.read_packet(data)
                    },
                    None => Err(UsbError::InvalidEndpoint),
                }
            },
        }
    }

    /// Sends one packet on an IN endpoint.
    ///
    /// Fails with `InvalidEndpoint` on a slot that is not an initialized IN
    /// endpoint, with `WouldBlock` while an earlier packet of a non-zero
    /// endpoint is still on its way or the transmit FIFO lacks room, and with
    /// `BufferOverflow` for data longer than the largest packet.
    pub fn write<P: UsbPeripheral>(&self, regs: &mut UsbRegisters<P>, data: &[u8]) -> (result:
        Result<(), UsbError>)
        requires
            self.wf(),
        ensures
            exists|control: u32, space: u32|
                {
                    &&& result == #[trigger] self@.write_result(data@, control, space)
                    &&& final(regs).trace() == old(regs).trace() + self@.write_trace(
                        data@,
                        control,
                        space,
                        UsbRegisters::<P>::high_speed(),
                    )
                },
    {
        let number = self.address.number;
        let ghost high_speed = UsbRegisters::<P>::high_speed();
        let mut control: u32 = 0;
        let mut space: u32 = 0;
        if !self.is_initialized() {
            assert(regs.trace() =~= old(regs).trace() + self@.write_trace(
                data@,
                control,
                space,
                high_speed,
            ));
            return Err(UsbError::InvalidEndpoint);
        }
        match self.address.direction {
            UsbDirection::Out => {
                assert(regs.trace() =~= old(regs).trace() + self@.write_trace(
                    data@,
                    control,
                    space,
                    high_speed,
                ));
                return Err(UsbError::InvalidEndpoint);
            },
            UsbDirection::In => {},
        }
        if number != 0 {
            control = regs.read(Register::Diepctl(number));
            if any_set(control, EPCTL_EPENA) {
                assert(regs.trace() =~= old(regs).trace() + self@.write_trace(
                    data@,
                    control,
                    space,
                    high_speed,
                ));
                return Err(UsbError::WouldBlock);
            }
        }
        if data.len() > self.max_packet_size() as usize {
            assert(regs.trace() =~= old(regs).trace() + self@.write_trace(
                data@,
                control,
                space,
                high_speed,
            ));
            return Err(UsbError::BufferOverflow);
        }
        let count: usize = (data.len() + 3) / 4;
        if data.len() > 0 {
            space = regs.read(Register::Dtxfsts(number));
            if count > (space & DTXFSTS_INEPTFSAV_MASK) as usize {
                assert(regs.trace() =~= old(regs).trace() + self@.write_trace(
                    data@,
                    control,
                    space,
                    high_speed,
                ));
                return Err(UsbError::WouldBlock);
            }
        }
        regs.write(
            Register::Dieptsiz(number),
            in_transfer_word(data.len() as u16, regs.is_high_speed()),
        );
        regs.modify(Register::Diepctl(number), EPCTL_CNAK | EPCTL_EPENA, EPCTL_CNAK | EPCTL_EPENA);
        let ghost announced = regs.trace();
        let mut j: usize = 0;
        while j < count
            invariant
                j <= count,
                count == words_for(data@.len()),
                number < MAX_ENDPOINTS,
                regs.trace() == announced + fifo_writes(number, data@).take(j as int),
            decreases count - j,
        {
            let word = pack_word(data, j);
            regs.write(Register::Fifo(number), word);
            j = j + 1;
        }
        assert(regs.trace() =~= old(regs).trace() + self@.write_trace(
            data@,
            control,
            space,
            high_speed,
        ));
        Ok(())
    }

    fn control_register(&self) -> (reg: Register)
        requires
            self.wf(),
        ensures
            reg == self@.control_register(),
            reg.valid(),
    {
        match self.address.direction {
            UsbDirection::In => Register::Diepctl(self.address.number),
            UsbDirection::Out => Register::Doepctl(self.address.number),
        }
    }

    fn interrupt_register(&self) -> (reg: Register)
        requires
            self.wf(),
        ensures
            reg == self@.interrupt_register(),
            reg.valid(),
    {
        match self.address.direction {
            UsbDirection::In => Register::Diepint(self.address.number),
            UsbDirection::Out => Register::Doepint(self.address.number),
        }
    }
}

/// Returns word `j` of a packet: four bytes, the first in the least
/// significant place, with zeros after the last byte of the packet.
pub fn pack_word(data: &[u8], j: usize) -> (word: u32)
    requires
        4 * j < data@.len(),
    ensures
        word == packed_word(data@, j as int),
{
    let len = data.len();
    let base: usize = 4 * j;
    let b0: u32 = data[base] as u32;
    let b1: u32 = if len - base > 1 {
        data[base + 1] as u32
    } else {
        0
    };
    let b2: u32 = if len - base > 2 {
        data[base + 2] as u32
    } else {
        0
    };
    let b3: u32 = if len - base > 3 {
        data[base + 3] as u32
    } else {
        0
    };
    b0 | (b1 << 8u32) | (b2 << 16u32) | (b3 << 24u32)
}

} // verus!
