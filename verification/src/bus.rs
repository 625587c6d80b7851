//! The bus controller: lifecycle of the peripheral, FIFO partitioning, and
//! the poll that turns the controller's interrupt flags into events.

use vstd::prelude::*;
use crate::endpoint::EndpointView;
use crate::endpoint_allocator::{
    keeps_configuration, AllocatorView, SynopsysEndpointAllocator, NUM_ENDPOINTS,
};
use crate::endpoint_memory::{packet_bytes, EndpointBufferState};
use crate::fifo::{
    fifo_depth_words, partition_fits, partition_trace, rx_fifo_size, rx_fifo_slack, tx_fifo_register,
    tx_fifo_size, tx_fifo_start, tx_fifo_word, tx_fifo_words, lemma_partition_layout,
    MIN_TX_FIFO_WORDS,
};
use crate::poll::{
    lemma_in_complete_mask_bits, lemma_pending_mask_bits, spec_endpoint_bit, has_endpoint,
    PKTSTS_OUT_DATA, after_receive, arrival_out_mask, arrival_setup_mask, collect_in_complete, in_complete_mask,
    in_complete_trace, pending_mask, pending_masks, receive, receive_trace, spec_decode_rx_status,
    takes_packet, lemma_receive_freezes, RxReads,
};
use crate::ral::{
    any_set, Access, Register, UsbRegisters, MAX_ENDPOINTS, DIEPINT_XFRC, DAINTMSK_IEPM_MASK, DAINTMSK_OEPM_MASK, DCFG_DAD_MASK,
    DCFG_DAD_SHIFT, DCFG_DSPD_FULL_SPEED, DCFG_DSPD_MASK, DCTL_SDIS, DIEPMSK_XFRCM, GAHBCFG_GINT,
    GCCFG_NOVBUSSENS, GCCFG_PWRDWN, GINTSTS_ENUMDNE, GINTSTS_IEPINT, GINTSTS_RXFLVL,
    GINTSTS_USBRST, GINTSTS_USBSUSP, GINTSTS_WKUPINT, GRSTCTL_AHBIDL, GRSTCTL_RXFFLSH,
    GRSTCTL_TXFFLSH, GRSTCTL_TXFNUM_ALL, GRSTCTL_TXFNUM_MASK, GRSTCTL_TXFNUM_SHIFT,
    GUSBCFG_FDMOD, GUSBCFG_PHYSEL, GUSBCFG_SRPCAP, GUSBCFG_TOCAL_MASK, GUSBCFG_TRDT_MASK,
    GUSBCFG_TRDT_SHIFT,
};
use crate::types::{EndpointAddress, EndpointConfig, PollResult, UsbDirection, UsbError};
use crate::UsbPeripheral;

verus! {

/// The upper stack has to set the device address before the status stage of
/// the request that assigns it.
pub const QUIRK_SET_ADDRESS_BEFORE_STATUS: bool = true;

/// The core interrupts that the driver listens to: bus reset, enumeration
/// done, suspend, wakeup, IN endpoint, and receive FIFO not empty.
pub const GINTMSK_DEVICE_EVENTS: u32 = GINTSTS_USBRST | GINTSTS_ENUMDNE | GINTSTS_USBSUSP
    | GINTSTS_WKUPINT | GINTSTS_IEPINT | GINTSTS_RXFLVL;

/// The interrupt mask bit of OUT endpoint 0.
pub const DAINTMSK_OUT0: u32 = 0x0001_0000;

/// The USB turnaround time of a full-speed part.
pub const TRDT_FULL_SPEED: u32 = 6;

/// The USB turnaround time of a high-speed part.
pub const TRDT_HIGH_SPEED: u32 = 9;

/// The bits of the USB configuration that `enable` rewrites.
pub open spec fn spec_usb_config_clear(high_speed: bool) -> u32 {
    if high_speed {
        GUSBCFG_SRPCAP | GUSBCFG_TRDT_MASK | GUSBCFG_TOCAL_MASK | GUSBCFG_FDMOD | GUSBCFG_PHYSEL
    } else {
        GUSBCFG_SRPCAP | GUSBCFG_TRDT_MASK | GUSBCFG_FDMOD
    }
}

/// Returns the bits of the USB configuration that `enable` rewrites.
#[verifier::when_used_as_spec(spec_usb_config_clear)]
pub fn usb_config_clear(high_speed: bool) -> (mask: u32)
    ensures
        mask == spec_usb_config_clear(high_speed),
{
    if high_speed {
        GUSBCFG_SRPCAP | GUSBCFG_TRDT_MASK | GUSBCFG_TOCAL_MASK | GUSBCFG_FDMOD | GUSBCFG_PHYSEL
    } else {
        GUSBCFG_SRPCAP | GUSBCFG_TRDT_MASK | GUSBCFG_FDMOD
    }
}

/// The USB configuration of a device: no session requests, the turnaround
/// time of the speed, and device mode forced. A high-speed part also gets a
/// timeout calibration of 1 and its full-speed transceiver selected.
pub open spec fn spec_usb_config_set(high_speed: bool) -> u32 {
    if high_speed {
        (TRDT_HIGH_SPEED << GUSBCFG_TRDT_SHIFT) | 1 | GUSBCFG_FDMOD | GUSBCFG_PHYSEL
    } else {
        (TRDT_FULL_SPEED << GUSBCFG_TRDT_SHIFT) | GUSBCFG_FDMOD
    }
}

/// Returns the USB configuration of a device.
#[verifier::when_used_as_spec(spec_usb_config_set)]
pub fn usb_config_set(high_speed: bool) -> (bits: u32)
    ensures
        bits == spec_usb_config_set(high_speed),
{
    if high_speed {
        (TRDT_HIGH_SPEED << GUSBCFG_TRDT_SHIFT) | 1 | GUSBCFG_FDMOD | GUSBCFG_PHYSEL
    } else {
        (TRDT_FULL_SPEED << GUSBCFG_TRDT_SHIFT) | GUSBCFG_FDMOD
    }
}

/// The accesses that bring the peripheral up and connect it to the bus.
pub open spec fn enable_trace(high_speed: bool) -> Seq<Access> {
    seq![
        Access::PowerOn,
        Access::Wait { reg: Register::Grstctl, mask: GRSTCTL_AHBIDL, value: GRSTCTL_AHBIDL },
        Access::Modify {
            reg: Register::Gusbcfg,
            clear: spec_usb_config_clear(high_speed),
            set: spec_usb_config_set(high_speed),
        },
        Access::Write { reg: Register::Gccfg, value: GCCFG_NOVBUSSENS },
        Access::Write { reg: Register::Pcgcctl, value: 0 },
        Access::Modify { reg: Register::Dctl, clear: DCTL_SDIS, set: DCTL_SDIS },
        Access::Modify { reg: Register::Dcfg, clear: DCFG_DSPD_MASK, set: DCFG_DSPD_FULL_SPEED },
        Access::Write { reg: Register::Diepmsk, value: DIEPMSK_XFRCM },
        Access::Write { reg: Register::Gintmsk, value: GINTMSK_DEVICE_EVENTS },
        Access::Write { reg: Register::Gintsts, value: 0xffff_ffff },
        Access::Modify { reg: Register::Gahbcfg, clear: GAHBCFG_GINT, set: GAHBCFG_GINT },
        Access::Modify { reg: Register::Gccfg, clear: GCCFG_PWRDWN, set: GCCFG_PWRDWN },
        Access::Modify { reg: Register::Dctl, clear: DCTL_SDIS, set: 0 },
    ]
}

/// The access that sets the device address.
pub open spec fn address_access(addr: u8) -> Access {
    Access::Modify {
        reg: Register::Dcfg,
        clear: DCFG_DAD_MASK,
        set: ((addr as u32) << DCFG_DAD_SHIFT) & DCFG_DAD_MASK,
    }
}

/// The accesses that flush the receive FIFO and every transmit FIFO, and
/// wait until the controller is done with it.
pub open spec fn flush_all_trace() -> Seq<Access> {
    seq![
        Access::Modify {
            reg: Register::Grstctl,
            clear: GRSTCTL_RXFFLSH | GRSTCTL_TXFFLSH | GRSTCTL_TXFNUM_MASK,
            set: GRSTCTL_RXFFLSH | GRSTCTL_TXFFLSH | (GRSTCTL_TXFNUM_ALL << GRSTCTL_TXFNUM_SHIFT),
        },
        Access::Wait {
            reg: Register::Grstctl,
            mask: GRSTCTL_RXFFLSH | GRSTCTL_TXFFLSH,
            value: 0,
        },
    ]
}

/// The accesses that flush the receive FIFO and wait until it is done.
pub open spec fn flush_rx_trace() -> Seq<Access> {
    seq![
        Access::Modify { reg: Register::Grstctl, clear: GRSTCTL_RXFFLSH, set: GRSTCTL_RXFFLSH },
        Access::Wait { reg: Register::Grstctl, mask: GRSTCTL_RXFFLSH, value: 0 },
    ]
}

/// The interrupt mask bit of IN endpoint `number`.
pub open spec fn spec_in_mask_bit(number: u8) -> u32 {
    1u32 << number
}

/// Returns the interrupt mask bit of IN endpoint `number`.
#[verifier::when_used_as_spec(spec_in_mask_bit)]
pub fn in_mask_bit(number: u8) -> (bit: u32)
    requires
        number < 32,
    ensures
        bit == spec_in_mask_bit(number),
{
    1u32 << number
}

/// The accesses that arm the initialized slots among the first `n` IN slots:
/// the interrupt of the endpoint is unmasked and the endpoint is enabled.
pub open spec fn arm_in_trace(slots: Seq<EndpointView>, n: nat) -> Seq<Access>
    decreases n,
{
    if n == 0 {
        Seq::<Access>::empty()
    } else {
        let i = (n - 1) as nat;
        let this = if slots[i as int].is_initialized() {
            seq![
                Access::Modify { reg: Register::Daintmsk, clear: 0, set: spec_in_mask_bit(i as u8) },
            ] + slots[i as int].enable_trace()
        } else {
            Seq::<Access>::empty()
        };
        arm_in_trace(slots, i) + this
    }
}

/// The accesses that arm the initialized slots among the first `n` OUT
/// slots: the endpoint is enabled, and for endpoint 0 its interrupt is
/// unmasked first.
pub open spec fn arm_out_trace(slots: Seq<EndpointView>, n: nat) -> Seq<Access>
    decreases n,
{
    if n == 0 {
        Seq::<Access>::empty()
    } else {
        let i = (n - 1) as nat;
        let this = if !slots[i as int].is_initialized() {
            Seq::<Access>::empty()
        } else if i == 0 {
            seq![Access::Modify { reg: Register::Daintmsk, clear: 0, set: DAINTMSK_OUT0 }]
                + slots[i as int].enable_trace()
        } else {
            slots[i as int].enable_trace()
        };
        arm_out_trace(slots, i) + this
    }
}

/// The accesses of a configuration: the FIFO memory is partitioned, all
/// FIFOs are flushed, and the initialized endpoints are armed, IN before OUT.
pub open spec fn configure_trace(view: AllocatorView, high_speed: bool) -> Seq<Access> {
    partition_trace(view, high_speed) + flush_all_trace() + arm_in_trace(
        view.endpoints_in,
        NUM_ENDPOINTS as nat,
    ) + arm_out_trace(view.endpoints_out, NUM_ENDPOINTS as nat)
}

/// Whether the endpoints can be configured: the FIFO partition fits the
/// controller's FIFO memory, and the control endpoints that are initialized
/// have a packet size that the controller knows.
pub open spec fn can_configure(view: AllocatorView, high_speed: bool) -> bool {
    &&& partition_fits(view, high_speed)
    &&& view.endpoints_in[0].is_initialized() ==> view.endpoints_in[0].can_enable()
    &&& view.endpoints_out[0].is_initialized() ==> view.endpoints_out[0].can_enable()
}

/// The accesses that disable the first `n` slots of one direction, where
/// `controls[i]` is what the control register of slot `i` gave.
pub open spec fn disable_all_trace(slots: Seq<EndpointView>, controls: Seq<u32>, n: nat) -> Seq<
    Access,
>
    decreases n,
{
    if n == 0 {
        Seq::<Access>::empty()
    } else {
        let i = (n - 1) as nat;
        disable_all_trace(slots, controls, i) + slots[i as int].disable_trace(controls[i as int])
    }
}

/// The accesses of a deconfiguration: the endpoint interrupts are masked and
/// every slot is disabled, whether it is initialized or not, IN before OUT.
pub open spec fn deconfigure_trace(
    view: AllocatorView,
    in_controls: Seq<u32>,
    out_controls: Seq<u32>,
) -> Seq<Access> {
    seq![
        Access::Modify {
            reg: Register::Daintmsk,
            clear: DAINTMSK_IEPM_MASK | DAINTMSK_OEPM_MASK,
            set: 0,
        },
    ] + disable_all_trace(view.endpoints_in, in_controls, NUM_ENDPOINTS as nat)
        + disable_all_trace(view.endpoints_out, out_controls, NUM_ENDPOINTS as nat)
}

/// What the controller answered during one poll. A value that was not asked
/// for does not matter.
pub struct PollReads {
    /// The core interrupt status.
    pub status: u32,
    /// The control registers of the IN slots, read while a reset disables them.
    pub in_controls: Seq<u32>,
    /// The control registers of the OUT slots, read while a reset disables them.
    pub out_controls: Seq<u32>,
    /// The answers while an entry of the receive FIFO was handled.
    pub rx: RxReads,
    /// The interrupt registers of the IN slots.
    pub in_interrupts: Seq<u32>,
}

impl PollReads {
    /// There is an answer for each slot, and a packet that is taken comes
    /// with the words that hold its bytes.
    pub open spec fn fits(self, view: AllocatorView) -> bool {
        &&& self.in_controls.len() == NUM_ENDPOINTS
        &&& self.out_controls.len() == NUM_ENDPOINTS
        &&& self.in_interrupts.len() == NUM_ENDPOINTS
        &&& reaches_data(self.status) && any_set(self.status, GINTSTS_RXFLVL) ==> self.rx.fits(
            view,
        )
    }
}

/// The accesses that answer a bus reset, if the status reports one: the flag
/// is cleared, the endpoints are deconfigured and the receive FIFO is flushed.
pub open spec fn reset_trace(
    view: AllocatorView,
    status: u32,
    in_controls: Seq<u32>,
    out_controls: Seq<u32>,
) -> Seq<Access> {
    if any_set(status, GINTSTS_USBRST) {
        seq![Access::Write { reg: Register::Gintsts, value: GINTSTS_USBRST }] + deconfigure_trace(
            view,
            in_controls,
            out_controls,
        ) + flush_rx_trace()
    } else {
        Seq::<Access>::empty()
    }
}

/// Whether a poll with this status gets as far as the packets: none of
/// enumeration done, wakeup and suspend is reported.
pub open spec fn reaches_data(status: u32) -> bool {
    &&& !any_set(status, GINTSTS_ENUMDNE)
    &&& !any_set(status, GINTSTS_WKUPINT)
    &&& !any_set(status, GINTSTS_USBSUSP)
}

/// The accesses of the data phase: an entry of the receive FIFO is handled if
/// the FIFO is not empty, and the completed IN transfers are collected if an
/// IN endpoint has raised its interrupt.
pub open spec fn data_trace(
    view: AllocatorView,
    status: u32,
    rx: RxReads,
    in_interrupts: Seq<u32>,
) -> Seq<Access> {
    let received = if any_set(status, GINTSTS_RXFLVL) {
        receive_trace(view, rx)
    } else {
        Seq::<Access>::empty()
    };
    let done = if any_set(status, GINTSTS_IEPINT) {
        in_complete_trace(view.endpoints_in, in_interrupts, NUM_ENDPOINTS as nat)
    } else {
        Seq::<Access>::empty()
    };
    received + done
}

/// The slots after the data phase: only an entry of the receive FIFO that is
/// handled can change them.
pub open spec fn data_endpoints(view: AllocatorView, status: u32, rx: RxReads) -> AllocatorView {
    if any_set(status, GINTSTS_RXFLVL) {
        after_receive(view, rx)
    } else {
        view
    }
}

/// The OUT mask of a data phase: the bit that the handled entry raises, and
/// the bits of the slots that hold a data packet afterwards.
pub open spec fn data_out_mask(view: AllocatorView, status: u32, rx: RxReads) -> u16 {
    let arrival = if any_set(status, GINTSTS_RXFLVL) {
        arrival_out_mask(spec_decode_rx_status(rx.status))
    } else {
        0
    };
    arrival | pending_mask(
        data_endpoints(view, status, rx).endpoints_out,
        EndpointBufferState::DataOut,
        NUM_ENDPOINTS as nat,
    )
}

/// The SETUP mask of a data phase: the bit that the handled entry raises, and
/// the bits of the slots that hold a SETUP packet afterwards.
pub open spec fn data_setup_mask(view: AllocatorView, status: u32, rx: RxReads) -> u16 {
    let arrival = if any_set(status, GINTSTS_RXFLVL) {
        arrival_setup_mask(spec_decode_rx_status(rx.status))
    } else {
        0
    };
    arrival | pending_mask(
        data_endpoints(view, status, rx).endpoints_out,
        EndpointBufferState::DataSetup,
        NUM_ENDPOINTS as nat,
    )
}

/// The mask of the completed IN transfers of a data phase.
pub open spec fn data_in_complete_mask(
    view: AllocatorView,
    status: u32,
    in_interrupts: Seq<u32>,
) -> u16 {
    if any_set(status, GINTSTS_IEPINT) {
        in_complete_mask(view.endpoints_in, in_interrupts, NUM_ENDPOINTS as nat)
    } else {
        0
    }
}

/// What a data phase reports: the three masks if any bit is set in them, and
/// no event otherwise.
pub open spec fn data_result(
    view: AllocatorView,
    status: u32,
    rx: RxReads,
    in_interrupts: Seq<u32>,
) -> PollResult {
    let ep_out = data_out_mask(view, status, rx);
    let ep_in_complete = data_in_complete_mask(view, status, in_interrupts);
    let ep_setup = data_setup_mask(view, status, rx);
    if (ep_in_complete | ep_out | ep_setup) != 0 {
        PollResult::Data { ep_out, ep_in_complete, ep_setup }
    } else {
        PollResult::NoEvent
    }
}

/// The accesses of the event that a poll reports: the flag of the first of
/// enumeration done, wakeup and suspend is cleared; without any of them the
/// data phase runs.
pub open spec fn event_trace(view: AllocatorView, reads: PollReads) -> Seq<Access> {
    if any_set(reads.status, GINTSTS_ENUMDNE) {
        seq![Access::Write { reg: Register::Gintsts, value: GINTSTS_ENUMDNE }]
    } else if any_set(reads.status, GINTSTS_WKUPINT) {
        seq![Access::Write { reg: Register::Gintsts, value: GINTSTS_WKUPINT }]
    } else if any_set(reads.status, GINTSTS_USBSUSP) {
        seq![Access::Write { reg: Register::Gintsts, value: GINTSTS_USBSUSP }]
    } else {
        data_trace(view, reads.status, reads.rx, reads.in_interrupts)
    }
}

/// The accesses of one poll: the interrupt status is read once, a bus reset
/// is answered first, and then the event is handled.
pub open spec fn poll_trace(view: AllocatorView, reads: PollReads) -> Seq<Access> {
    seq![Access::Read { reg: Register::Gintsts, value: reads.status }] + reset_trace(
        view,
        reads.status,
        reads.in_controls,
        reads.out_controls,
    ) + event_trace(view, reads)
}

/// The slots after one poll: only the data phase can change them.
pub open spec fn poll_endpoints(view: AllocatorView, reads: PollReads) -> AllocatorView {
    if reaches_data(reads.status) {
        data_endpoints(view, reads.status, reads.rx)
    } else {
        view
    }
}

/// What one poll reports. Enumeration done comes before wakeup, wakeup before
/// suspend, and these before the packets. A bus reset is answered but not
/// reported by itself.
pub open spec fn poll_result(view: AllocatorView, reads: PollReads) -> PollResult {
    if any_set(reads.status, GINTSTS_ENUMDNE) {
        PollResult::Reset
    } else if any_set(reads.status, GINTSTS_WKUPINT) {
        PollResult::Resume
    } else if any_set(reads.status, GINTSTS_USBSUSP) {
        PollResult::Suspend
    } else {
        data_result(view, reads.status, reads.rx, reads.in_interrupts)
    }
}

/// What a read from the endpoint at `ep_addr` returns: `InvalidEndpoint` for
/// an address that names no OUT slot, and else what the slot returns.
pub open spec fn read_result(view: AllocatorView, ep_addr: EndpointAddress, room: nat) -> Result<
    usize,
    UsbError,
> {
    if ep_addr.number < NUM_ENDPOINTS && ep_addr.direction is Out {
        view.endpoints_out[ep_addr.number as int].read_result(room)
    } else {
        Err(UsbError::InvalidEndpoint)
    }
}

/// The slots after a read from the endpoint at `ep_addr`: a read that
/// succeeds empties the buffer of that endpoint, and nothing else changes.
pub open spec fn after_read(view: AllocatorView, ep_addr: EndpointAddress, room: nat) -> AllocatorView {
    if read_result(view, ep_addr, room) is Ok {
        AllocatorView {
            endpoints_out: view.endpoints_out.update(
                ep_addr.number as int,
                view.endpoints_out[ep_addr.number as int].after_read(room),
            ),
            ..view
        }
    } else {
        view
    }
}

/// The destination after a read from the endpoint at `ep_addr`.
pub open spec fn read_into(view: AllocatorView, ep_addr: EndpointAddress, dest: Seq<u8>) -> Seq<
    u8,
> {
    if read_result(view, ep_addr, dest.len()) is Ok {
        view.endpoints_out[ep_addr.number as int].read_into(dest)
    } else {
        dest
    }
}

/// A packet of an initialized OUT endpoint that a poll took into the buffer
/// comes out of the next read of that endpoint as it arrived: the read
/// returns the byte count of the packet and puts its bytes at the front of
/// the destination, each word of the FIFO giving its least significant byte
/// first, and the buffer is empty afterwards.
pub proof fn lemma_round_trip(view: AllocatorView, rx: RxReads, dest: Seq<u8>)
    requires
        view.wf(),
        takes_packet(view, spec_decode_rx_status(rx.status)),
        view.endpoints_out[spec_decode_rx_status(rx.status).endpoint as int].is_initialized(),
        spec_decode_rx_status(rx.status).byte_count <= dest.len(),
    ensures
        ({
            let status = spec_decode_rx_status(rx.status);
            let address = EndpointAddress {
                number: status.endpoint,
                direction: UsbDirection::Out,
            };
            let held = after_receive(view, rx);
            &&& read_result(held, address, dest.len()) == Ok::<usize, UsbError>(
                status.byte_count as usize,
            )
            &&& read_into(held, address, dest) == packet_bytes(
                rx.words,
                status.byte_count as nat,
            ) + dest.skip(status.byte_count as int)
            &&& after_read(held, address, dest.len()).endpoints_out[status.endpoint as int].buffer_state() is Empty
        }),
{
}

/// A read keeps the slots well-formed and changes no address and no
/// configuration.
pub proof fn lemma_read_freezes(view: AllocatorView, ep_addr: EndpointAddress, room: nat)
    requires
        view.wf(),
    ensures
        after_read(view, ep_addr, room).wf(),
        keeps_configuration(view, after_read(view, ep_addr, room)),
{
}

/// A poll keeps the slots well-formed and changes no address and no
/// configuration.
pub proof fn lemma_poll_freezes(view: AllocatorView, reads: PollReads)
    requires
        view.wf(),
    ensures
        poll_endpoints(view, reads).wf(),
        keeps_configuration(view, poll_endpoints(view, reads)),
{
    lemma_receive_freezes(view, reads.rx);
}

/// What the masks of a data phase say about endpoint `number`.
///
/// Its OUT bit is set exactly if the entry that was handled is the data of
/// an OUT packet for it, or its slot holds a data packet afterwards. Its
/// SETUP bit is set exactly if the entry that was handled is the data of a
/// SETUP packet for it, or its slot holds a SETUP packet afterwards. Its
/// completion bit is set exactly if IN transfers were looked at and its slot
/// is initialized and had the completion flag set.
pub proof fn lemma_data_masks(
    view: AllocatorView,
    status: u32,
    rx: RxReads,
    in_interrupts: Seq<u32>,
    number: u8,
)
    requires
        view.wf(),
        in_interrupts.len() == NUM_ENDPOINTS,
        number < MAX_ENDPOINTS,
    ensures
        ({
            let entry = spec_decode_rx_status(rx.status);
            let after = data_endpoints(view, status, rx);
            let handled = any_set(status, GINTSTS_RXFLVL);
            &&& has_endpoint(data_out_mask(view, status, rx), number) == ((handled
                && entry.packet_status == PKTSTS_OUT_DATA && entry.endpoint == number) || (number
                < NUM_ENDPOINTS && after.endpoints_out[number as int].is_initialized()
                && after.endpoints_out[number as int].buffer_state() is DataOut))
            &&& has_endpoint(data_setup_mask(view, status, rx), number) == ((handled
                && entry.is_setup() && entry.endpoint == number) || (number < NUM_ENDPOINTS
                && after.endpoints_out[number as int].is_initialized()
                && after.endpoints_out[number as int].buffer_state() is DataSetup))
            &&& has_endpoint(data_in_complete_mask(view, status, in_interrupts), number) == (
            any_set(status, GINTSTS_IEPINT) && number < NUM_ENDPOINTS
                && view.endpoints_in[number as int].is_initialized() && any_set(
                in_interrupts[number as int],
                DIEPINT_XFRC,
            ))
        }),
{
    let after = data_endpoints(view, status, rx);
    lemma_receive_freezes(view, rx);
    lemma_pending_mask_bits(after.endpoints_out, EndpointBufferState::DataOut, number);
    lemma_pending_mask_bits(after.endpoints_out, EndpointBufferState::DataSetup, number);
    lemma_in_complete_mask_bits(view.endpoints_in, in_interrupts, number);
    let pending_out = pending_mask(
        after.endpoints_out,
        EndpointBufferState::DataOut,
        NUM_ENDPOINTS as nat,
    );
    let pending_setup = pending_mask(
        after.endpoints_out,
        EndpointBufferState::DataSetup,
        NUM_ENDPOINTS as nat,
    );
    let word: u32 = rx.status;
    let arrived: u8 = (word & 0xf) as u8;
    assert(arrived < 16) by (bit_vector)
        requires
            arrived == (word & 0xf) as u8,
    ;
    assert(forall|a: u16, b: u16, n: u8|
        n < 16 ==> (((a | b) & (1u16 << n)) != 0) == (((a & (1u16 << n)) != 0) || ((b & (1u16
            << n)) != 0))) by (bit_vector);
    assert(forall|e: u8, n: u8| e < 16 && n < 16 ==> (((1u16 << e) & (1u16 << n)) != 0) == (e == n))
        by (bit_vector);
    assert(forall|n: u8| n < 16 ==> (0u16 & (1u16 << n)) == 0) by (bit_vector);
    assert(has_endpoint(spec_endpoint_bit(arrived) | pending_out, number) == (arrived
        == number || has_endpoint(pending_out, number)));
    assert(has_endpoint(spec_endpoint_bit(arrived) | pending_setup, number) == (arrived
        == number || has_endpoint(pending_setup, number)));
}

/// A poll that finds both a bus reset and the end of the enumeration answers
/// the reset first, by deconfiguring the endpoints and flushing the receive
/// FIFO, and then reports `Reset`; no packet is looked at.
pub proof fn lemma_reset_comes_first(view: AllocatorView, reads: PollReads)
    requires
        any_set(reads.status, GINTSTS_USBRST),
        any_set(reads.status, GINTSTS_ENUMDNE),
    ensures
        poll_result(view, reads) == PollResult::Reset,
        poll_endpoints(view, reads) == view,
        poll_trace(view, reads) == seq![
            Access::Read { reg: Register::Gintsts, value: reads.status },
            Access::Write { reg: Register::Gintsts, value: GINTSTS_USBRST },
        ] + deconfigure_trace(view, reads.in_controls, reads.out_controls) + flush_rx_trace()
            + seq![Access::Write { reg: Register::Gintsts, value: GINTSTS_ENUMDNE }],
{
}

/// USB peripheral driver for a Synopsys OTG controller in device mode.
pub struct UsbBus<USB: UsbPeripheral> {
    regs: UsbRegisters<USB>,
    endpoint_allocator: SynopsysEndpointAllocator,
}

impl<USB: UsbPeripheral> UsbBus<USB> {
    /// The register accesses made so far, oldest first.
    pub closed spec fn trace(&self) -> Seq<Access> {
        self.regs.trace()
    }

    /// The endpoint slots and the state of the buffer memory.
    pub closed spec fn endpoints(&self) -> AllocatorView {
        self.endpoint_allocator@
    }

    /// The slots and the buffer memory keep their invariants.
    pub closed spec fn wf(&self) -> bool {
        self.endpoint_allocator.wf()
    }

    /// The peripheral that the driver holds.
    pub closed spec fn peripheral(&self) -> USB {
        self.regs.peripheral()
    }

    /// Whether the peripheral is a high-speed part.
    pub open spec fn high_speed() -> bool {
        USB::HIGH_SPEED
    }

    /// A well-formed bus has well-formed slots.
    pub proof fn lemma_wf_endpoints(&self)
        requires
            self.wf(),
        ensures
            self.endpoints().wf(),
    {
    }

    /// Constructs the driver of a peripheral, with a region of words for the
    /// receive buffers. No endpoint is allocated and no register is touched.
    pub fn new(peripheral: USB, ep_memory: &'static mut [u32]) -> (bus: Self)
        ensures
            bus.wf(),
            bus.trace() == Seq::<Access>::empty(),
            bus.peripheral() == peripheral,
            bus.endpoints().capacity_words == old(ep_memory)@.len(),
            bus.endpoints().allocated_words == 0,
            forall|i: int|
                0 <= i < NUM_ENDPOINTS ==> !(#[trigger] bus.endpoints().endpoints_in[i]).is_initialized(),
            forall|i: int|
                0 <= i < NUM_ENDPOINTS ==> !(#[trigger] bus.endpoints().endpoints_out[i]).is_initialized(),
    {
        UsbBus {
            regs: UsbRegisters::new(peripheral),
            endpoint_allocator: SynopsysEndpointAllocator::new(ep_memory),
        }
    }

    /// Gives the peripheral back.
    pub fn free(self) -> (peripheral: USB)
        ensures
            peripheral == self.peripheral(),
    {
        self.regs.free()
    }

    /// The endpoint slots, to look at.
    pub fn allocator(&self) -> (allocator: &SynopsysEndpointAllocator)
        requires
            self.wf(),
        ensures
            allocator.wf(),
            allocator@ == self.endpoints(),
    {
        &self.endpoint_allocator
    }

    /// Allocates an IN endpoint with the given configuration.
    pub fn alloc_in(&mut self, config: &EndpointConfig) -> (result: Result<
        EndpointAddress,
        UsbError,
    >)
        requires
            old(self).wf(),
        ensures
            final(self).wf(),
            result == old(self).endpoints().alloc_in_result(*config),
            final(self).endpoints() == old(self).endpoints().alloc_in(*config),
            final(self).trace() == old(self).trace(),
    {
        self.endpoint_allocator.alloc_in(config)
    }

    /// Allocates an OUT endpoint with the given configuration, and a receive
    /// buffer for its largest packet.
    pub fn alloc_out(&mut self, config: &EndpointConfig) -> (result: Result<
        EndpointAddress,
        UsbError,
    >)
        requires
            old(self).wf(),
        ensures
            final(self).wf(),
            result == old(self).endpoints().alloc_out_result(*config),
            final(self).endpoints() == old(self).endpoints().alloc_out(*config),
            final(self).trace() == old(self).trace(),
    {
        self.endpoint_allocator.alloc_out(config)
    }

    /// Tells whether `configure_all` and `reset` can be called.
    pub fn can_configure(&self) -> (ok: bool)
        requires
            self.wf(),
        ensures
            ok == can_configure(self.endpoints(), Self::high_speed()),
    {
        let high_speed = self.regs.is_high_speed();
        let depth = fifo_depth_words(high_speed);
        let total = self.endpoint_allocator.memory_allocator.total_rx_buffer_size_words();
        proof {
            lemma_partition_layout(self.endpoint_allocator@, high_speed);
        }
        if total > depth as usize {
            return false;
        }
        let mut top: u32 = total as u32 + rx_fifo_slack(high_speed);
        let mut i: usize = 0;
        while i < NUM_ENDPOINTS && top <= depth
            invariant
                i <= NUM_ENDPOINTS,
                self.wf(),
                depth == fifo_depth_words(high_speed),
                top == tx_fifo_start(self.endpoint_allocator@, high_speed, i as nat),
            decreases NUM_ENDPOINTS - i,
        {
            top = top + tx_fifo_words(&self.endpoint_allocator.endpoints_in[i]);
            i = i + 1;
        }
        if top > depth {
            return false;
        }
        let control_in = &self.endpoint_allocator.endpoints_in[0];
        if control_in.is_initialized() && !control_in.can_enable() {
            return false;
        }
        let control_out = &self.endpoint_allocator.endpoints_out[0];
        if control_out.is_initialized() && !control_out.can_enable() {
            return false;
        }
        true
    }

    /// Partitions the FIFO memory, flushes all FIFOs and arms the initialized
    /// endpoints.
    ///
    /// The partition that is written lies inside the FIFO memory, and every
    /// transmit region has at least `MIN_TX_FIFO_WORDS` words.
    pub fn configure_all(&mut self)
        requires
            old(self).wf(),
            can_configure(old(self).endpoints(), Self::high_speed()),
        ensures
            final(self).wf(),
            final(self).endpoints() == old(self).endpoints(),
            final(self).trace() == old(self).trace() + configure_trace(
                old(self).endpoints(),
                Self::high_speed(),
            ),
            rx_fifo_size(old(self).endpoints(), Self::high_speed()) + tx_fifo_size(
                old(self).endpoints().endpoints_in[0],
            ) + tx_fifo_size(old(self).endpoints().endpoints_in[1]) + tx_fifo_size(
                old(self).endpoints().endpoints_in[2],
            ) + tx_fifo_size(old(self).endpoints().endpoints_in[3]) <= fifo_depth_words(
                Self::high_speed(),
            ),
            forall|i: int|
                0 <= i < NUM_ENDPOINTS ==> tx_fifo_size(
                    #[trigger] old(self).endpoints().endpoints_in[i],
                ) >= MIN_TX_FIFO_WORDS,
    {
        let high_speed = self.regs.is_high_speed();
        let ghost view = self.endpoint_allocator@;
        proof {
            lemma_partition_layout(view, high_speed);
        }
        let total = self.endpoint_allocator.memory_allocator.total_rx_buffer_size_words();
        let rx: u32 = total as u32 + rx_fifo_slack(high_speed);
        self.regs.write(Register::Grxfsiz, rx);
        let mut top: u32 = rx;
        let mut i: usize = 0;
        while i < NUM_ENDPOINTS
            invariant
                i <= NUM_ENDPOINTS,
                self.wf(),
                view == self.endpoint_allocator@,
                high_speed == Self::high_speed(),
                partition_fits(view, high_speed),
                top == tx_fifo_start(view, high_speed, i as nat),
                self.regs.trace() == old(self).regs.trace() + partition_trace(
                    view,
                    high_speed,
                ).take(i + 1),
            decreases NUM_ENDPOINTS - i,
        {
            proof {
                lemma_partition_layout(view, high_speed);
            }
            let size = tx_fifo_words(&self.endpoint_allocator.endpoints_in[i]);
            self.regs.write(tx_fifo_register(i as u8), tx_fifo_word(size, top));
            top = top + size;
            i = i + 1;
        }
        self.regs.modify(
            Register::Grstctl,
            GRSTCTL_RXFFLSH | GRSTCTL_TXFFLSH | GRSTCTL_TXFNUM_MASK,
            GRSTCTL_RXFFLSH | GRSTCTL_TXFFLSH | (GRSTCTL_TXFNUM_ALL << GRSTCTL_TXFNUM_SHIFT),
        );
        self.regs.wait_for(Register::Grstctl, GRSTCTL_RXFFLSH | GRSTCTL_TXFFLSH, 0);
        let ghost flushed = self.regs.trace();
        assert(flushed =~= old(self).regs.trace() + (partition_trace(view, high_speed)
            + flush_all_trace()));
        let mut j: usize = 0;
        while j < NUM_ENDPOINTS
            invariant
                j <= NUM_ENDPOINTS,
                self.wf(),
                view == self.endpoint_allocator@,
                can_configure(view, high_speed),
                self.regs.trace() == flushed + arm_in_trace(view.endpoints_in, j as nat),
            decreases NUM_ENDPOINTS - j,
        {
            if self.endpoint_allocator.endpoints_in[j].is_initialized() {
                assert(view.endpoints_in[j as int].address.number == j);
                self.regs.modify(Register::Daintmsk, 0, in_mask_bit(j as u8));
                self.endpoint_allocator.endpoints_in[j].enable(&mut self.regs);
            }
            j = j + 1;
            assert(self.regs.trace() =~= flushed + arm_in_trace(view.endpoints_in, j as nat));
        }
        let ghost armed_in = self.regs.trace();
        let mut k: usize = 0;
        while k < NUM_ENDPOINTS
            invariant
                k <= NUM_ENDPOINTS,
                self.wf(),
                view == self.endpoint_allocator@,
                can_configure(view, high_speed),
                self.regs.trace() == armed_in + arm_out_trace(view.endpoints_out, k as nat),
            decreases NUM_ENDPOINTS - k,
        {
            if self.endpoint_allocator.endpoints_out[k].is_initialized() {
                assert(view.endpoints_out[k as int].address.number == k);
                if k == 0 {
                    self.regs.modify(Register::Daintmsk, 0, DAINTMSK_OUT0);
                }
                self.endpoint_allocator.endpoints_out[k].enable(&mut self.regs);
            }
            k = k + 1;
            assert(self.regs.trace() =~= armed_in + arm_out_trace(view.endpoints_out, k as nat));
        }
        assert(self.regs.trace() =~= old(self).regs.trace() + configure_trace(view, high_speed));
    }

    /// Masks the endpoint interrupts and disables every endpoint slot.
    pub fn deconfigure_all(&mut self)
        requires
            old(self).wf(),
        ensures
            final(self).wf(),
            final(self).endpoints() == old(self).endpoints(),
            exists|in_controls: Seq<u32>, out_controls: Seq<u32>|
                {
                    &&& in_controls.len() == NUM_ENDPOINTS
                    &&& out_controls.len() == NUM_ENDPOINTS
                    &&& final(self).trace() == old(self).trace() + #[trigger] deconfigure_trace(
                        old(self).endpoints(),
                        in_controls,
                        out_controls,
                    )
                },
    {
        let ghost view = self.endpoint_allocator@;
        self.regs.modify(Register::Daintmsk, DAINTMSK_IEPM_MASK | DAINTMSK_OEPM_MASK, 0);
        let ghost masked = self.regs.trace();
        let ghost mut in_controls: Seq<u32> = Seq::new(NUM_ENDPOINTS as nat, |i: int| 0u32);
        let mut j: usize = 0;
        while j < NUM_ENDPOINTS
            invariant
                j <= NUM_ENDPOINTS,
                self.wf(),
                view == self.endpoint_allocator@,
                in_controls.len() == NUM_ENDPOINTS,
                self.regs.trace() == masked + disable_all_trace(
                    view.endpoints_in,
                    in_controls,
                    j as nat,
                ),
            decreases NUM_ENDPOINTS - j,
        {
            let ghost before = self.regs.trace();
            let ghost earlier = in_controls;
            self.endpoint_allocator.endpoints_in[j].disable(&mut self.regs);
            proof {
                let slot = view.endpoints_in[j as int];
                let control = choose|control: u32|
                    self.regs.trace() == before + #[trigger] slot.disable_trace(control);
                in_controls = in_controls.update(j as int, control);
                lemma_disable_all_prefix(view.endpoints_in, earlier, in_controls, j as nat);
            }
            j = j + 1;
        }
        let ghost disabled_in = self.regs.trace();
        let ghost mut out_controls: Seq<u32> = Seq::new(NUM_ENDPOINTS as nat, |i: int| 0u32);
        let mut k: usize = 0;
        while k < NUM_ENDPOINTS
            invariant
                k <= NUM_ENDPOINTS,
                self.wf(),
                view == self.endpoint_allocator@,
                out_controls.len() == NUM_ENDPOINTS,
                self.regs.trace() == disabled_in + disable_all_trace(
                    view.endpoints_out,
                    out_controls,
                    k as nat,
                ),
            decreases NUM_ENDPOINTS - k,
        {
            let ghost before = self.regs.trace();
            let ghost earlier = out_controls;
            self.endpoint_allocator.endpoints_out[k].disable(&mut self.regs);
            proof {
                let slot = view.endpoints_out[k as int];
                let control = choose|control: u32|
                    self.regs.trace() == before + #[trigger] slot.disable_trace(control);
                out_controls = out_controls.update(k as int, control);
                lemma_disable_all_prefix(view.endpoints_out, earlier, out_controls, k as nat);
            }
            k = k + 1;
        }
        assert(self.regs.trace() =~= old(self).regs.trace() + deconfigure_trace(
            view,
            in_controls,
            out_controls,
        ));
    }

    /// Brings the peripheral up: device mode is forced, the interrupts that
    /// the driver listens to are unmasked, and the device is connected.
    pub fn enable(&mut self)
        requires
            old(self).wf(),
        ensures
            final(self).wf(),
            final(self).endpoints() == old(self).endpoints(),
            final(self).trace() == old(self).trace() + enable_trace(Self::high_speed()),
    {
        let high_speed = self.regs.is_high_speed();
        self.regs.power_on();
        self.regs.wait_for(Register::Grstctl, GRSTCTL_AHBIDL, GRSTCTL_AHBIDL);
        self.regs.modify(
            Register::Gusbcfg,
            usb_config_clear(high_speed),
            usb_config_set(high_speed),
        );
        self.regs.write(Register::Gccfg, GCCFG_NOVBUSSENS);
        self.regs.write(Register::Pcgcctl, 0);
        self.regs.modify(Register::Dctl, DCTL_SDIS, DCTL_SDIS);
        self.regs.modify(Register::Dcfg, DCFG_DSPD_MASK, DCFG_DSPD_FULL_SPEED);
        self.regs.write(Register::Diepmsk, DIEPMSK_XFRCM);
        self.regs.write(Register::Gintmsk, GINTMSK_DEVICE_EVENTS);
        self.regs.write(Register::Gintsts, 0xffff_ffff);
        self.regs.modify(Register::Gahbcfg, GAHBCFG_GINT, GAHBCFG_GINT);
        self.regs.modify(Register::Gccfg, GCCFG_PWRDWN, GCCFG_PWRDWN);
        self.regs.modify(Register::Dctl, DCTL_SDIS, 0);
        assert(self.regs.trace() =~= old(self).regs.trace() + enable_trace(high_speed));
    }

    /// Answers a bus reset: the endpoints are configured and the device
    /// address goes back to 0.
    pub fn reset(&mut self)
        requires
            old(self).wf(),
            can_configure(old(self).endpoints(), Self::high_speed()),
        ensures
            final(self).wf(),
            final(self).endpoints() == old(self).endpoints(),
            final(self).trace() == old(self).trace() + configure_trace(
                old(self).endpoints(),
                Self::high_speed(),
            ).push(address_access(0)),
    {
        self.configure_all();
        self.regs.modify(Register::Dcfg, DCFG_DAD_MASK, (0u32 << DCFG_DAD_SHIFT) & DCFG_DAD_MASK);
    }

    /// Sets the address of the device on the bus.
    pub fn set_device_address(&mut self, addr: u8)
        requires
            old(self).wf(),
        ensures
            final(self).wf(),
            final(self).endpoints() == old(self).endpoints(),
            final(self).trace() == old(self).trace().push(address_access(addr)),
    {
        self.regs.modify(
            Register::Dcfg,
            DCFG_DAD_MASK,
            ((addr as u32) << DCFG_DAD_SHIFT) & DCFG_DAD_MASK,
        );
    }

    /// Sets or clears the stall condition of an endpoint. An address beyond
    /// the slots is ignored.
    pub fn set_stalled(&mut self, ep_addr: EndpointAddress, stalled: bool)
        requires
            old(self).wf(),
        ensures
            final(self).wf(),
            final(self).endpoints() == old(self).endpoints(),
            ep_addr.number >= NUM_ENDPOINTS ==> final(self).trace() == old(self).trace(),
            ep_addr.number < NUM_ENDPOINTS ==> exists|control: u32|
                final(self).trace() == old(self).trace() + #[trigger] old(self).slot(
                    ep_addr,
                ).stall_trace(control, stalled),
    {
        if ep_addr.number >= NUM_ENDPOINTS as u8 {
            return ;
        }
        match ep_addr.direction {
            UsbDirection::In => {
                self.endpoint_allocator.endpoints_in[ep_addr.number as usize].set_stalled(
                    &mut self.regs,
                    stalled,
                );
            },
            UsbDirection::Out => {
                self.endpoint_allocator.endpoints_out[ep_addr.number as usize].set_stalled(
                    &mut self.regs,
                    stalled,
                );
            },
        }
    }

    /// Whether the stall condition of an endpoint is set. An address beyond
    /// the slots counts as stalled, and no register is read for it.
    pub fn is_stalled(&mut self, ep_addr: EndpointAddress) -> (stalled: bool)
        requires
            old(self).wf(),
        ensures
            final(self).wf(),
            final(self).endpoints() == old(self).endpoints(),
            ep_addr.number >= NUM_ENDPOINTS ==> stalled && final(self).trace() == old(
                self,
            ).trace(),
            ep_addr.number < NUM_ENDPOINTS ==> exists|control: u32|
                {
                    &&& final(self).trace() == old(self).trace().push(
                        Access::Read {
                            reg: old(self).slot(ep_addr).control_register(),
                            value: control,
                        },
                    )
                    &&& stalled == #[trigger] EndpointView::control_says_stalled(control)
                },
    {
        if ep_addr.number >= NUM_ENDPOINTS as u8 {
            return true;
        }
        match ep_addr.direction {
            UsbDirection::In => self.endpoint_allocator.endpoints_in[ep_addr.number as usize].is_stalled(
                &mut self.regs,
            ),
            UsbDirection::Out => self.endpoint_allocator.endpoints_out[ep_addr.number as usize].is_stalled(
                &mut self.regs,
            ),
        }
    }

    /// Nothing is to be done when the bus is suspended: the controller tells
    /// so by interrupt.
    pub fn suspend(&mut self)
        ensures
            final(self).wf() == old(self).wf(),
            final(self).endpoints() == old(self).endpoints(),
            final(self).trace() == old(self).trace(),
    {
    }

    /// Nothing is to be done when the bus is resumed: the controller tells
    /// so by interrupt.
    pub fn resume(&mut self)
        ensures
            final(self).wf() == old(self).wf(),
            final(self).endpoints() == old(self).endpoints(),
            final(self).trace() == old(self).trace(),
    {
    }

    /// The slot that an address within the slots names.
    pub open spec fn slot(&self, ep_addr: EndpointAddress) -> EndpointView {
        match ep_addr.direction {
            UsbDirection::In => self.endpoints().endpoints_in[ep_addr.number as int],
            UsbDirection::Out => self.endpoints().endpoints_out[ep_addr.number as int],
        }
    }

    /// Takes the pending packet of an OUT endpoint and returns its length.
    ///
    /// Fails with `InvalidEndpoint` for an address that names no initialized
    /// OUT endpoint, with `WouldBlock` when no packet is pending, and with
    /// `BufferOverflow` when `data` is shorter than the packet. On success
    /// the packet stands at the front of `data` and the buffer is empty.
    pub fn read(&mut self, ep_addr: EndpointAddress, data: &mut [u8]) -> (result: Result<
        usize,
        UsbError,
    >)
        requires
            old(self).wf(),
        ensures
            final(self).wf(),
            final(self).trace() == old(self).trace(),
            result == read_result(old(self).endpoints(), ep_addr, old(data)@.len()),
            final(self).endpoints() == after_read(
                old(self).endpoints(),
                ep_addr,
                old(data)@.len(),
            ),
            final(data)@ == read_into(old(self).endpoints(), ep_addr, old(data)@),
            final(data)@.len() == old(data)@.len(),
    {
        if ep_addr.number >= NUM_ENDPOINTS as u8 {
            return Err(UsbError::InvalidEndpoint);
        }
        match ep_addr.direction {
            UsbDirection::In => Err(UsbError::InvalidEndpoint),
            UsbDirection::Out => {
                let result = self.endpoint_allocator.endpoints_out[ep_addr.number as usize].read(
                    data,
                );
                proof {
                    let before = old(self).endpoint_allocator@;
                    let after = after_read(before, ep_addr, old(data)@.len());
                    assert(self.endpoint_allocator@.endpoints_in =~= after.endpoints_in);
                    assert(self.endpoint_allocator@.endpoints_out =~= after.endpoints_out);
                }
                result
            },
        }
    }

    /// Sends one packet on an IN endpoint.
    ///
    /// Fails with `InvalidEndpoint` for an address that names no initialized
    /// IN endpoint, with `WouldBlock` while an earlier packet of a non-zero
    /// endpoint is still on its way or the transmit FIFO lacks room, and with
    /// `BufferOverflow` for data longer than the largest packet.
    pub fn write(&mut self, ep_addr: EndpointAddress, data: &[u8]) -> (result: Result<
        (),
        UsbError,
    >)
        requires
            old(self).wf(),
        ensures
            final(self).wf(),
            final(self).endpoints() == old(self).endpoints(),
            ep_addr.number >= NUM_ENDPOINTS || ep_addr.direction is Out ==> {
                &&& result == Err::<(), UsbError>(UsbError::InvalidEndpoint)
                &&& final(self).trace() == old(self).trace()
            },
            ep_addr.number < NUM_ENDPOINTS && ep_addr.direction is In ==> exists|
                control: u32,
                space: u32,
            |
                {
                    &&& result == #[trigger] old(self).slot(ep_addr).write_result(
                        data@,
                        control,
                        space,
                    )
                    &&& final(self).trace() == old(self).trace() + old(self).slot(
                        ep_addr,
                    ).write_trace(data@, control, space, Self::high_speed())
                },
    {
        if ep_addr.number >= NUM_ENDPOINTS as u8 {
            return Err(UsbError::InvalidEndpoint);
        }
        match ep_addr.direction {
            UsbDirection::Out => Err(UsbError::InvalidEndpoint),
            UsbDirection::In => self.endpoint_allocator.endpoints_in[ep_addr.number as usize].write(
                &mut self.regs,
                data,
            ),
        }
    }

    /// Looks at the controller's interrupt status once and handles what it
    /// reports, in this order: a bus reset deconfigures the endpoints and
    /// flushes the receive FIFO; then enumeration done gives `Reset`, wakeup
    /// gives `Resume`, suspend gives `Suspend`; and without any of these one
    /// entry of the receive FIFO is handled, the completed IN transfers are
    /// collected, and the packets that wait in the buffers are reported.
    pub fn poll(&mut self) -> (result: PollResult)
        requires
            old(self).wf(),
        ensures
            final(self).wf(),
            exists|reads: PollReads|
                {
                    &&& final(self).trace() == old(self).trace() + #[trigger] poll_trace(
                        old(self).endpoints(),
                        reads,
                    )
                    &&& result == poll_result(old(self).endpoints(), reads)
                    &&& final(self).endpoints() == poll_endpoints(old(self).endpoints(), reads)
                    &&& reads.fits(old(self).endpoints())
                },
    {
        let ghost view = self.endpoint_allocator@;
        let ghost zeros: Seq<u32> = Seq::new(NUM_ENDPOINTS as nat, |i: int| 0u32);
        let ghost no_rx = RxReads { status: 0, in_size: 0, words: Seq::empty(), popped: 0 };
        let status = self.regs.read(Register::Gintsts);
        let ghost asked = self.regs.trace();
        self.answer_reset(status);
        let ghost (in_controls, out_controls) = choose|
            in_controls: Seq<u32>,
            out_controls: Seq<u32>,
        |
            {
                &&& in_controls.len() == NUM_ENDPOINTS
                &&& out_controls.len() == NUM_ENDPOINTS
                &&& self.regs.trace() == asked + #[trigger] reset_trace(
                    view,
                    status,
                    in_controls,
                    out_controls,
                )
            };
        let ghost answered = self.regs.trace();
        let ghost quiet = PollReads {
            status,
            in_controls,
            out_controls,
            rx: no_rx,
            in_interrupts: zeros,
        };
        if any_set(status, GINTSTS_ENUMDNE) {
            self.regs.write(Register::Gintsts, GINTSTS_ENUMDNE);
            proof {
                assert(self.trace() == old(self).trace() + poll_trace(
                    old(self).endpoints(),
                    quiet,
                ));
            }
            return PollResult::Reset;
        }
        if any_set(status, GINTSTS_WKUPINT) {
            self.regs.write(Register::Gintsts, GINTSTS_WKUPINT);
            proof {
                assert(self.trace() == old(self).trace() + poll_trace(
                    old(self).endpoints(),
                    quiet,
                ));
            }
            return PollResult::Resume;
        }
        if any_set(status, GINTSTS_USBSUSP) {
            self.regs.write(Register::Gintsts, GINTSTS_USBSUSP);
            proof {
                assert(self.trace() == old(self).trace() + poll_trace(
                    old(self).endpoints(),
                    quiet,
                ));
            }
            return PollResult::Suspend;
        }
        let result = self.report_packets(status);
        proof {
            let (rx, in_interrupts) = choose|rx: RxReads, in_interrupts: Seq<u32>|
                {
                    &&& in_interrupts.len() == NUM_ENDPOINTS
                    &&& any_set(status, GINTSTS_RXFLVL) ==> rx.fits(view)
                    &&& self.regs.trace() == answered + #[trigger] data_trace(
                        view,
                        status,
                        rx,
                        in_interrupts,
                    )
                    &&& result == data_result(view, status, rx, in_interrupts)
                    &&& self.endpoint_allocator@ == data_endpoints(view, status, rx)
                };
            let reads = PollReads { status, in_controls, out_controls, rx, in_interrupts };
            assert(self.trace() =~= old(self).trace() + poll_trace(old(self).endpoints(), reads));
        }
        result
    }

    /// Answers a bus reset, if the status reports one.
    fn answer_reset(&mut self, status: u32)
        requires
            old(self).wf(),
        ensures
            final(self).wf(),
            final(self).endpoints() == old(self).endpoints(),
            exists|in_controls: Seq<u32>, out_controls: Seq<u32>|
                {
                    &&& in_controls.len() == NUM_ENDPOINTS
                    &&& out_controls.len() == NUM_ENDPOINTS
                    &&& final(self).trace() == old(self).trace() + #[trigger] reset_trace(
                        old(self).endpoints(),
                        status,
                        in_controls,
                        out_controls,
                    )
                },
    {
        let ghost view = self.endpoint_allocator@;
        let ghost zeros: Seq<u32> = Seq::new(NUM_ENDPOINTS as nat, |i: int| 0u32);
        if any_set(status, GINTSTS_USBRST) {
            self.regs.write(Register::Gintsts, GINTSTS_USBRST);
            let ghost cleared = self.regs.trace();
            self.deconfigure_all();
            let ghost (in_controls, out_controls) = choose|
                in_controls: Seq<u32>,
                out_controls: Seq<u32>,
            |
                {
                    &&& in_controls.len() == NUM_ENDPOINTS
                    &&& out_controls.len() == NUM_ENDPOINTS
                    &&& self.regs.trace() == cleared + #[trigger] deconfigure_trace(
                        view,
                        in_controls,
                        out_controls,
                    )
                };
            self.regs.modify(Register::Grstctl, GRSTCTL_RXFFLSH, GRSTCTL_RXFFLSH);
            self.regs.wait_for(Register::Grstctl, GRSTCTL_RXFFLSH, 0);
            assert(self.trace() =~= old(self).trace() + reset_trace(
                old(self).endpoints(),
                status,
                in_controls,
                out_controls,
            ));
        } else {
            assert(self.trace() == old(self).trace() + reset_trace(
                old(self).endpoints(),
                status,
                zeros,
                zeros,
            ));
        }
    }

    /// Runs the data phase of a poll and returns what it reports.
    fn report_packets(&mut self, status: u32) -> (result: PollResult)
        requires
            old(self).wf(),
        ensures
            final(self).wf(),
            exists|rx: RxReads, in_interrupts: Seq<u32>|
                {
                    &&& in_interrupts.len() == NUM_ENDPOINTS
                    &&& any_set(status, GINTSTS_RXFLVL) ==> rx.fits(old(self).endpoints())
                    &&& final(self).trace() == old(self).trace() + #[trigger] data_trace(
                        old(self).endpoints(),
                        status,
                        rx,
                        in_interrupts,
                    )
                    &&& result == data_result(old(self).endpoints(), status, rx, in_interrupts)
                    &&& final(self).endpoints() == data_endpoints(
                        old(self).endpoints(),
                        status,
                        rx,
                    )
                },
    {
        let ghost view = self.endpoint_allocator@;
        let ghost mut rx = RxReads { status: 0, in_size: 0, words: Seq::empty(), popped: 0 };
        let ghost mut in_interrupts: Seq<u32> = Seq::new(NUM_ENDPOINTS as nat, |i: int| 0u32);
        let mut ep_out: u16 = 0;
        let mut ep_in_complete: u16 = 0;
        let mut ep_setup: u16 = 0;
        if any_set(status, GINTSTS_RXFLVL) {
            let masks = receive(&mut self.regs, &mut self.endpoint_allocator);
            proof {
                rx = choose|rx: RxReads|
                    {
                        &&& self.regs.trace() == old(self).regs.trace() + #[trigger] receive_trace(
                            view,
                            rx,
                        )
                        &&& rx.fits(view)
                        &&& self.endpoint_allocator@ == after_receive(view, rx)
                        &&& masks.0 == arrival_out_mask(spec_decode_rx_status(rx.status))
                        &&& masks.1 == arrival_setup_mask(spec_decode_rx_status(rx.status))
                    };
            }
            ep_out = masks.0;
            ep_setup = masks.1;
        }
        let ghost received = self.regs.trace();
        if any_set(status, GINTSTS_IEPINT) {
            ep_in_complete = collect_in_complete(&mut self.regs, &self.endpoint_allocator);
            proof {
                in_interrupts = choose|interrupts: Seq<u32>|
                    {
                        &&& interrupts.len() == NUM_ENDPOINTS
                        &&& self.regs.trace() == received + #[trigger] in_complete_trace(
                            view.endpoints_in,
                            interrupts,
                            NUM_ENDPOINTS as nat,
                        )
                        &&& ep_in_complete == in_complete_mask(
                            view.endpoints_in,
                            interrupts,
                            NUM_ENDPOINTS as nat,
                        )
                    };
            }
        }
        let pending = pending_masks(&self.endpoint_allocator);
        ep_out = ep_out | pending.0;
        ep_setup = ep_setup | pending.1;
        assert(self.trace() =~= old(self).trace() + data_trace(
            old(self).endpoints(),
            status,
            rx,
            in_interrupts,
        ));
        if (ep_in_complete | ep_out | ep_setup) != 0 {
            PollResult::Data { ep_out, ep_in_complete, ep_setup }
        } else {
            PollResult::NoEvent
        }
    }
}

/// What is disabled among the first `n` slots depends only on what the first
/// `n` control registers gave.
pub proof fn lemma_disable_all_prefix(
    slots: Seq<EndpointView>,
    a: Seq<u32>,
    b: Seq<u32>,
    n: nat,
)
    requires
        a.len() == b.len(),
        n <= a.len(),
        forall|i: int| 0 <= i < n ==> a[i] == b[i],
    ensures
        disable_all_trace(slots, a, n) == disable_all_trace(slots, b, n),
    decreases n,
{
    if n > 0 {
        lemma_disable_all_prefix(slots, a, b, (n - 1) as nat);
    }
}

} // verus!
