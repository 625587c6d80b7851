//! The data phase of a poll: one entry of the receive FIFO is handled, the
//! completed IN transfers are collected, and the pending packets are reported.

use vstd::prelude::*;
use crate::endpoint::EndpointView;
use crate::endpoint_allocator::{
    keeps_configuration, AllocatorView, SynopsysEndpointAllocator, NUM_ENDPOINTS,
};
use crate::endpoint_memory::{fifo_reads, words_for, EndpointBufferState};
use crate::ral::{
    any_set, Access, Register, UsbRegisters, DIEPINT_XFRC, EPCTL_CNAK, EPCTL_EPENA,
    EPTSIZ_PKTCNT_MASK, GRSTCTL_TXFFLSH, GRSTCTL_TXFNUM_MASK, GRSTCTL_TXFNUM_SHIFT,
    GRXSTS_BCNT_MASK, GRXSTS_BCNT_SHIFT, GRXSTS_EPNUM_MASK, GRXSTS_PKTSTS_MASK,
    GRXSTS_PKTSTS_SHIFT, MAX_ENDPOINTS,
};
use crate::UsbPeripheral;

verus! {

/// Packet status: the data of an OUT packet has arrived.
pub const PKTSTS_OUT_DATA: u8 = 2;

/// Packet status: an OUT transfer is complete.
pub const PKTSTS_OUT_COMPLETE: u8 = 3;

/// Packet status: a SETUP transaction is complete.
pub const PKTSTS_SETUP_COMPLETE: u8 = 4;

/// Packet status: the data of a SETUP packet has arrived.
pub const PKTSTS_SETUP_DATA: u8 = 6;

/// The fields of a receive status word.
#[derive(Clone, Copy, Debug, PartialEq, Eq, Hash, Structural)]
pub struct RxStatus {
    /// The number of the endpoint that the entry is for.
    pub endpoint: u8,
    /// The length of the packet in bytes.
    pub byte_count: u16,
    pub packet_status: u8,
}

impl RxStatus {
    /// Whether packet data follows the status word.
    pub open spec fn spec_carries_data(self) -> bool {
        self.packet_status == PKTSTS_OUT_DATA || self.packet_status == PKTSTS_SETUP_DATA
    }

    /// Tells whether packet data follows the status word.
    #[verifier::when_used_as_spec(spec_carries_data)]
    pub fn carries_data(self) -> (carries: bool)
        ensures
            carries == self.spec_carries_data(),
    {
        self.packet_status == PKTSTS_OUT_DATA || self.packet_status == PKTSTS_SETUP_DATA
    }

    /// Whether the entry is a SETUP packet.
    pub open spec fn spec_is_setup(self) -> bool {
        self.packet_status == PKTSTS_SETUP_DATA
    }

    /// Tells whether the entry is a SETUP packet.
    #[verifier::when_used_as_spec(spec_is_setup)]
    pub fn is_setup(self) -> (setup: bool)
        ensures
            setup == self.spec_is_setup(),
    {
        self.packet_status == PKTSTS_SETUP_DATA
    }

    /// Whether the entry ends a transfer, after which the OUT endpoint has
    /// to be armed again.
    pub open spec fn spec_is_completion(self) -> bool {
        self.packet_status == PKTSTS_OUT_COMPLETE || self.packet_status == PKTSTS_SETUP_COMPLETE
    }

    /// Tells whether the entry ends a transfer.
    #[verifier::when_used_as_spec(spec_is_completion)]
    pub fn is_completion(self) -> (completion: bool)
        ensures
            completion == self.spec_is_completion(),
    {
        self.packet_status == PKTSTS_OUT_COMPLETE || self.packet_status == PKTSTS_SETUP_COMPLETE
    }
}

/// The fields of a receive status word: the endpoint number in bits 0 to 3,
/// the byte count in bits 4 to 14, the packet status in bits 17 to 20.
pub open spec fn spec_decode_rx_status(word: u32) -> RxStatus {
    RxStatus {
        endpoint: (word & GRXSTS_EPNUM_MASK) as u8,
        byte_count: ((word >> GRXSTS_BCNT_SHIFT) & GRXSTS_BCNT_MASK) as u16,
        packet_status: ((word >> GRXSTS_PKTSTS_SHIFT) & GRXSTS_PKTSTS_MASK) as u8,
    }
}

/// Takes a receive status word apart.
#[verifier::when_used_as_spec(spec_decode_rx_status)]
pub fn decode_rx_status(word: u32) -> (status: RxStatus)
    ensures
        status == spec_decode_rx_status(word),
        status.endpoint < MAX_ENDPOINTS,
        status.byte_count <= GRXSTS_BCNT_MASK,
        status.packet_status <= GRXSTS_PKTSTS_MASK,
{
    let endpoint: u32 = word & GRXSTS_EPNUM_MASK;
    let byte_count: u32 = (word >> GRXSTS_BCNT_SHIFT) & GRXSTS_BCNT_MASK;
    let packet_status: u32 = (word >> GRXSTS_PKTSTS_SHIFT) & GRXSTS_PKTSTS_MASK;
    assert(endpoint <= 0xf && byte_count <= 0x7ff && packet_status <= 0xf) by (bit_vector)
        requires
            endpoint == word & 0xf,
            byte_count == (word >> 4u32) & 0x7ff,
            packet_status == (word >> 17u32) & 0xf,
    ;
    RxStatus {
        endpoint: endpoint as u8,
        byte_count: byte_count as u16,
        packet_status: packet_status as u8,
    }
}

/// The mask with only the bit of endpoint `number` set.
pub open spec fn spec_endpoint_bit(number: u8) -> u16 {
    1u16 << number
}

/// Returns the mask with only the bit of endpoint `number` set.
#[verifier::when_used_as_spec(spec_endpoint_bit)]
pub fn endpoint_bit(number: u8) -> (mask: u16)
    requires
        number < MAX_ENDPOINTS,
    ensures
        mask == spec_endpoint_bit(number),
{
    1u16 << number
}

/// Whether the bit of endpoint `number` is set in `mask`.
pub open spec fn has_endpoint(mask: u16, number: u8) -> bool {
    mask & spec_endpoint_bit(number) != 0
}

/// The mask that has the bit of each of the first four endpoints set or not
/// as the four flags say, and no other bit.
pub open spec fn mask_of(flags: Seq<bool>, n: nat) -> u16
    decreases n,
{
    if n == 0 {
        0
    } else {
        let i = (n - 1) as nat;
        if flags[i as int] {
            mask_of(flags, i) | spec_endpoint_bit(i as u8)
        } else {
            mask_of(flags, i)
        }
    }
}

/// In a mask that is built from four flags, the bit of an endpoint is set
/// exactly if the endpoint is one of the first four and its flag is set.
pub proof fn lemma_mask_of_bits(flags: Seq<bool>, number: u8)
    requires
        flags.len() == NUM_ENDPOINTS,
        number < MAX_ENDPOINTS,
    ensures
        has_endpoint(mask_of(flags, NUM_ENDPOINTS as nat), number) == (number < NUM_ENDPOINTS
            && flags[number as int]),
{
    reveal_with_fuel(mask_of, 5);
    let f0 = flags[0];
    let f1 = flags[1];
    let f2 = flags[2];
    let f3 = flags[3];
    let m1: u16 = if f0 {
        0u16 | (1u16 << 0u8)
    } else {
        0u16
    };
    let m2: u16 = if f1 {
        m1 | (1u16 << 1u8)
    } else {
        m1
    };
    let m3: u16 = if f2 {
        m2 | (1u16 << 2u8)
    } else {
        m2
    };
    let m4: u16 = if f3 {
        m3 | (1u16 << 3u8)
    } else {
        m3
    };
    assert((m4 & (1u16 << number) != 0) == ((number == 0 && f0) || (number == 1 && f1) || (number
        == 2 && f2) || (number == 3 && f3))) by (bit_vector)
        requires
            number < 16,
            m1 == (if f0 {
                0u16 | (1u16 << 0u8)
            } else {
                0u16
            }),
            m2 == (if f1 {
                m1 | (1u16 << 1u8)
            } else {
                m1
            }),
            m3 == (if f2 {
                m2 | (1u16 << 2u8)
            } else {
                m2
            }),
            m4 == (if f3 {
                m3 | (1u16 << 3u8)
            } else {
                m3
            }),
    ;
}

/// What the controller answered while one entry of the receive FIFO was handled.
pub struct RxReads {
    /// The receive status word.
    pub status: u32,
    /// The transfer size register of the IN endpoint, read for a SETUP packet.
    pub in_size: u32,
    /// The words of the packet, read if the buffer took the packet.
    pub words: Seq<u32>,
    /// What popping the status gave.
    pub popped: u32,
}

/// Whether the packet that `status` announces goes into a buffer: it carries
/// data, its endpoint is one of the OUT slots, and the slot has an empty
/// buffer that the packet fits.
pub open spec fn takes_packet(view: AllocatorView, status: RxStatus) -> bool {
    &&& status.carries_data()
    &&& status.endpoint < NUM_ENDPOINTS
    &&& view.endpoints_out[status.endpoint as int].takes(
        status.byte_count as nat,
        status.is_setup(),
    )
}

impl RxReads {
    /// A packet that is taken comes with the words that hold its bytes.
    pub open spec fn fits(self, view: AllocatorView) -> bool {
        let status = spec_decode_rx_status(self.status);
        takes_packet(view, status) ==> self.words.len() == words_for(status.byte_count as nat)
    }
}

/// The slots after the entry was handled: a packet that is taken fills the
/// buffer of its endpoint; any other entry changes nothing.
pub open spec fn after_receive(view: AllocatorView, reads: RxReads) -> AllocatorView {
    let status = spec_decode_rx_status(reads.status);
    if takes_packet(view, status) {
        AllocatorView {
            endpoints_out: view.endpoints_out.update(
                status.endpoint as int,
                view.endpoints_out[status.endpoint as int].filled(
                    reads.words,
                    status.byte_count as nat,
                    status.is_setup(),
                ),
            ),
            ..view
        }
    } else {
        view
    }
}

/// The accesses before the packet data of an entry is looked at. For a SETUP
/// packet the transfer size of the IN endpoint is read, and a transfer that
/// is still stuck there is flushed out of its transmit FIFO. After the end of
/// a transfer the OUT endpoint is armed again.
pub open spec fn receive_prelude(status: RxStatus, in_size: u32) -> Seq<Access> {
    if status.is_setup() {
        let look = seq![Access::Read { reg: Register::Dieptsiz(status.endpoint), value: in_size }];
        if any_set(in_size, EPTSIZ_PKTCNT_MASK) {
            look + seq![
                Access::Modify {
                    reg: Register::Grstctl,
                    clear: GRSTCTL_TXFNUM_MASK | GRSTCTL_TXFFLSH,
                    set: ((status.endpoint as u32) << GRSTCTL_TXFNUM_SHIFT) | GRSTCTL_TXFFLSH,
                },
                Access::Wait { reg: Register::Grstctl, mask: GRSTCTL_TXFFLSH, value: 0 },
            ]
        } else {
            look
        }
    } else if status.is_completion() {
        seq![
            Access::Modify {
                reg: Register::Doepctl(status.endpoint),
                clear: EPCTL_CNAK | EPCTL_EPENA,
                set: EPCTL_CNAK | EPCTL_EPENA,
            },
        ]
    } else {
        Seq::<Access>::empty()
    }
}

/// The accesses that handle one entry of the receive FIFO: the status is
/// looked at without popping, the words of a packet that is taken are read
/// through the window of its endpoint, and the entry is popped exactly once.
pub open spec fn receive_trace(view: AllocatorView, reads: RxReads) -> Seq<Access> {
    let status = spec_decode_rx_status(reads.status);
    let data = if takes_packet(view, status) {
        fifo_reads(status.endpoint, reads.words)
    } else {
        Seq::<Access>::empty()
    };
    seq![Access::Read { reg: Register::Grxstsr, value: reads.status }] + receive_prelude(
        status,
        reads.in_size,
    ) + data + seq![Access::Read { reg: Register::Grxstsp, value: reads.popped }]
}

/// A SETUP packet that arrives while a transfer is stuck on the IN endpoint
/// of its number has the transmit FIFO of that number flushed, and the flush
/// waited for, before anything else is done with the packet.
pub proof fn lemma_setup_flushes_stuck_transfer(status: RxStatus, in_size: u32)
    requires
        status.is_setup(),
        any_set(in_size, EPTSIZ_PKTCNT_MASK),
    ensures
        receive_prelude(status, in_size) == seq![
            Access::Read { reg: Register::Dieptsiz(status.endpoint), value: in_size },
            Access::Modify {
                reg: Register::Grstctl,
                clear: GRSTCTL_TXFNUM_MASK | GRSTCTL_TXFFLSH,
                set: ((status.endpoint as u32) << GRSTCTL_TXFNUM_SHIFT) | GRSTCTL_TXFFLSH,
            },
            Access::Wait { reg: Register::Grstctl, mask: GRSTCTL_TXFFLSH, value: 0 },
        ],
{
}

/// A packet that arrives for an endpoint whose buffer still holds one is
/// dropped: no word of it is read, the entry is popped, and every slot is as
/// it was.
pub proof fn lemma_pending_packet_is_kept(view: AllocatorView, reads: RxReads)
    requires
        view.wf(),
        spec_decode_rx_status(reads.status).endpoint < NUM_ENDPOINTS,
        !(view.endpoints_out[spec_decode_rx_status(reads.status).endpoint as int].buffer_state() is Empty),
    ensures
        after_receive(view, reads) == view,
        receive_trace(view, reads) == seq![
            Access::Read { reg: Register::Grxstsr, value: reads.status },
        ] + receive_prelude(spec_decode_rx_status(reads.status), reads.in_size) + seq![
            Access::Read { reg: Register::Grxstsp, value: reads.popped },
        ],
{
}

/// Handling an entry of the receive FIFO keeps the slots well-formed and
/// changes no address and no configuration.
pub proof fn lemma_receive_freezes(view: AllocatorView, reads: RxReads)
    requires
        view.wf(),
    ensures
        after_receive(view, reads).wf(),
        keeps_configuration(view, after_receive(view, reads)),
        after_receive(view, reads).endpoints_in == view.endpoints_in,
{
}

/// The OUT bit that the entry itself raises: that of its endpoint, for the
/// data of an OUT packet.
pub open spec fn arrival_out_mask(status: RxStatus) -> u16 {
    if status.packet_status == PKTSTS_OUT_DATA {
        spec_endpoint_bit(status.endpoint)
    } else {
        0
    }
}

/// The SETUP bit that the entry itself raises: that of its endpoint, for the
/// data of a SETUP packet.
pub open spec fn arrival_setup_mask(status: RxStatus) -> u16 {
    if status.is_setup() {
        spec_endpoint_bit(status.endpoint)
    } else {
        0
    }
}

/// Handles one entry of the receive FIFO and returns the OUT bit and the
/// SETUP bit that the entry raises.
///
/// A packet whose endpoint has no empty buffer that fits it is dropped, and
/// so is one for an endpoint beyond the slots. The entry is popped either way.
pub fn receive<P: UsbPeripheral>(
    regs: &mut UsbRegisters<P>,
    allocator: &mut SynopsysEndpointAllocator,
) -> (masks: (u16, u16))
    requires
        old(allocator).wf(),
    ensures
        final(allocator).wf(),
        exists|reads: RxReads|
            {
                &&& final(regs).trace() == old(regs).trace() + #[trigger] receive_trace(
                    old(allocator)@,
                    reads,
                )
                &&& reads.fits(old(allocator)@)
                &&& final(allocator)@ == after_receive(old(allocator)@, reads)
                &&& masks.0 == arrival_out_mask(spec_decode_rx_status(reads.status))
                &&& masks.1 == arrival_setup_mask(spec_decode_rx_status(reads.status))
            },
{
    let word = regs.read(Register::Grxstsr);
    let status = decode_rx_status(word);
    let mut ep_out: u16 = 0;
    let mut ep_setup: u16 = 0;
    let ghost mut in_size: u32 = 0;
    let ghost mut words: Seq<u32> = Seq::empty();
    if status.is_setup() {
        let size = regs.read(Register::Dieptsiz(status.endpoint));
        proof {
            in_size = size;
        }
        if any_set(size, EPTSIZ_PKTCNT_MASK) {
            regs.modify(
                Register::Grstctl,
                GRSTCTL_TXFNUM_MASK | GRSTCTL_TXFFLSH,
                ((status.endpoint as u32) << GRSTCTL_TXFNUM_SHIFT) | GRSTCTL_TXFFLSH,
            );
            regs.wait_for(Register::Grstctl, GRSTCTL_TXFFLSH, 0);
        }
        ep_setup = endpoint_bit(status.endpoint);
    } else if status.is_completion() {
        regs.modify(
            Register::Doepctl(status.endpoint),
            EPCTL_CNAK | EPCTL_EPENA,
            EPCTL_CNAK | EPCTL_EPENA,
        );
    } else if status.packet_status == PKTSTS_OUT_DATA {
        ep_out = endpoint_bit(status.endpoint);
    }
    let ghost before_data = regs.trace();
    if status.carries_data() && (status.endpoint as usize) < NUM_ENDPOINTS {
        let ghost slot = allocator@.endpoints_out[status.endpoint as int];
        let ghost taken = slot.takes(status.byte_count as nat, status.is_setup());
        allocator.endpoints_out[status.endpoint as usize].receive(
            regs,
            status.byte_count,
            status.is_setup(),
        );
        proof {
            if taken {
                words = choose|words: Seq<u32>|
                    {
                        &&& words.len() == words_for(status.byte_count as nat)
                        &&& regs.trace() == before_data + #[trigger] fifo_reads(
                            slot.address.number,
                            words,
                        )
                        &&& allocator.endpoints_out[status.endpoint as int]@ == slot.filled(
                            words,
                            status.byte_count as nat,
                            status.is_setup(),
                        )
                    };
            }
        }
    }
    let popped = regs.read(Register::Grxstsp);
    proof {
        let reads = RxReads { status: word, in_size, words, popped };
        assert(allocator@.endpoints_out =~= after_receive(old(allocator)@, reads).endpoints_out);
        assert(regs.trace() =~= old(regs).trace() + receive_trace(old(allocator)@, reads));
    }
    (ep_out, ep_setup)
}

/// The accesses that collect the completed IN transfers among the first `n`
/// slots, where `interrupts[i]` is what the interrupt register of slot `i`
/// gave: the register of each initialized slot is read, and a completion
/// flag that is set is cleared by writing it.
pub open spec fn in_complete_trace(slots: Seq<EndpointView>, interrupts: Seq<u32>, n: nat) -> Seq<
    Access,
>
    decreases n,
{
    if n == 0 {
        Seq::<Access>::empty()
    } else {
        let i = (n - 1) as nat;
        let reg = Register::Diepint(i as u8);
        let this = if !slots[i as int].is_initialized() {
            Seq::<Access>::empty()
        } else if any_set(interrupts[i as int], DIEPINT_XFRC) {
            seq![
                Access::Read { reg, value: interrupts[i as int] },
                Access::Write { reg, value: DIEPINT_XFRC },
            ]
        } else {
            seq![Access::Read { reg, value: interrupts[i as int] }]
        };
        in_complete_trace(slots, interrupts, i) + this
    }
}

/// The mask of the completed IN transfers among the first `n` slots: the
/// bits of the initialized slots whose completion flag was set.
pub open spec fn in_complete_mask(slots: Seq<EndpointView>, interrupts: Seq<u32>, n: nat) -> u16
    decreases n,
{
    if n == 0 {
        0
    } else {
        let i = (n - 1) as nat;
        let rest = in_complete_mask(slots, interrupts, i);
        if slots[i as int].is_initialized() && any_set(interrupts[i as int], DIEPINT_XFRC) {
            rest | spec_endpoint_bit(i as u8)
        } else {
            rest
        }
    }
}

/// Collects the completed IN transfers and clears their completion flags.
pub fn collect_in_complete<P: UsbPeripheral>(
    regs: &mut UsbRegisters<P>,
    allocator: &SynopsysEndpointAllocator,
) -> (mask: u16)
    requires
        allocator.wf(),
    ensures
        exists|interrupts: Seq<u32>|
            {
                &&& interrupts.len() == NUM_ENDPOINTS
                &&& final(regs).trace() == old(regs).trace() + #[trigger] in_complete_trace(
                    allocator@.endpoints_in,
                    interrupts,
                    NUM_ENDPOINTS as nat,
                )
                &&& mask == in_complete_mask(
                    allocator@.endpoints_in,
                    interrupts,
                    NUM_ENDPOINTS as nat,
                )
            },
{
    let mut mask: u16 = 0;
    let ghost mut interrupts: Seq<u32> = Seq::new(NUM_ENDPOINTS as nat, |i: int| 0u32);
    let ghost slots = allocator@.endpoints_in;
    let mut i: usize = 0;
    while i < NUM_ENDPOINTS
        invariant
            i <= NUM_ENDPOINTS,
            allocator.wf(),
            slots == allocator@.endpoints_in,
            interrupts.len() == NUM_ENDPOINTS,
            regs.trace() == old(regs).trace() + in_complete_trace(slots, interrupts, i as nat),
            mask == in_complete_mask(slots, interrupts, i as nat),
        decreases NUM_ENDPOINTS - i,
    {
        let ghost before = interrupts;
        if allocator.endpoints_in[i].is_initialized() {
            let reg = Register::Diepint(i as u8);
            let flags = regs.read(reg);
            proof {
                interrupts = interrupts.update(i as int, flags);
            }
            if any_set(flags, DIEPINT_XFRC) {
                regs.write(reg, DIEPINT_XFRC);
                mask = mask | endpoint_bit(i as u8);
            }
        }
        proof {
            lemma_in_complete_prefix(slots, before, interrupts, i as nat);
        }
        i = i + 1;
    }
    mask
}

/// What is collected among the first `n` slots depends only on what the
/// first `n` interrupt registers gave.
pub proof fn lemma_in_complete_prefix(
    slots: Seq<EndpointView>,
    a: Seq<u32>,
    b: Seq<u32>,
    n: nat,
)
    requires
        a.len() == b.len(),
        n <= a.len(),
        forall|i: int| 0 <= i < n ==> a[i] == b[i],
    ensures
        in_complete_trace(slots, a, n) == in_complete_trace(slots, b, n),
        in_complete_mask(slots, a, n) == in_complete_mask(slots, b, n),
    decreases n,
{
    if n > 0 {
        lemma_in_complete_prefix(slots, a, b, (n - 1) as nat);
    }
}

/// The mask of the pending packets of one kind among the first `n` OUT
/// slots: the bits of the initialized slots whose buffer is in `state`.
pub open spec fn pending_mask(slots: Seq<EndpointView>, state: EndpointBufferState, n: nat) -> u16
    decreases n,
{
    if n == 0 {
        0
    } else {
        let i = (n - 1) as nat;
        let rest = pending_mask(slots, state, i);
        if slots[i as int].is_initialized() && slots[i as int].buffer_state() == state {
            rest | spec_endpoint_bit(i as u8)
        } else {
            rest
        }
    }
}

/// Bit `number` of the mask of pending packets is set exactly if slot
/// `number` is one of the slots, is initialized, and its buffer is in `state`.
pub proof fn lemma_pending_mask_bits(
    slots: Seq<EndpointView>,
    state: EndpointBufferState,
    number: u8,
)
    requires
        slots.len() == NUM_ENDPOINTS,
        number < MAX_ENDPOINTS,
    ensures
        has_endpoint(pending_mask(slots, state, NUM_ENDPOINTS as nat), number) == (number
            < NUM_ENDPOINTS && slots[number as int].is_initialized()
            && slots[number as int].buffer_state() == state),
{
    let flags = Seq::new(
        NUM_ENDPOINTS as nat,
        |i: int| slots[i].is_initialized() && slots[i].buffer_state() == state,
    );
    reveal_with_fuel(pending_mask, 5);
    reveal_with_fuel(mask_of, 5);
    lemma_mask_of_bits(flags, number);
}

/// Bit `number` of the mask of completed IN transfers is set exactly if slot
/// `number` is one of the slots, is initialized, and its completion flag was
/// set.
pub proof fn lemma_in_complete_mask_bits(
    slots: Seq<EndpointView>,
    interrupts: Seq<u32>,
    number: u8,
)
    requires
        slots.len() == NUM_ENDPOINTS,
        interrupts.len() == NUM_ENDPOINTS,
        number < MAX_ENDPOINTS,
    ensures
        has_endpoint(in_complete_mask(slots, interrupts, NUM_ENDPOINTS as nat), number) == (
        number < NUM_ENDPOINTS && slots[number as int].is_initialized() && any_set(
            interrupts[number as int],
            DIEPINT_XFRC,
        )),
{
    let flags = Seq::new(
        NUM_ENDPOINTS as nat,
        |i: int| slots[i].is_initialized() && any_set(interrupts[i], DIEPINT_XFRC),
    );
    reveal_with_fuel(in_complete_mask, 5);
    reveal_with_fuel(mask_of, 5);
    lemma_mask_of_bits(flags, number);
}

/// Returns the masks of the OUT slots that hold a data packet and of those
/// that hold a SETUP packet.
pub fn pending_masks(allocator: &SynopsysEndpointAllocator) -> (masks: (u16, u16))
    requires
        allocator.wf(),
    ensures
        masks.0 == pending_mask(
            allocator@.endpoints_out,
            EndpointBufferState::DataOut,
            NUM_ENDPOINTS as nat,
        ),
        masks.1 == pending_mask(
            allocator@.endpoints_out,
            EndpointBufferState::DataSetup,
            NUM_ENDPOINTS as nat,
        ),
{
    let mut ep_out: u16 = 0;
    let mut ep_setup: u16 = 0;
    let ghost slots = allocator@.endpoints_out;
    let mut i: usize = 0;
    while i < NUM_ENDPOINTS
        invariant
            i <= NUM_ENDPOINTS,
            allocator.wf(),
            slots == allocator@.endpoints_out,
            ep_out == pending_mask(slots, EndpointBufferState::DataOut, i as nat),
            ep_setup == pending_mask(slots, EndpointBufferState::DataSetup, i as nat),
        decreases NUM_ENDPOINTS - i,
    {
        if allocator.endpoints_out[i].is_initialized() {
            match allocator.endpoints_out[i].buffer_state() {
                EndpointBufferState::DataOut => {
                    ep_out = ep_out | endpoint_bit(i as u8);
                },
                EndpointBufferState::DataSetup => {
                    ep_setup = ep_setup | endpoint_bit(i as u8);
                },
                EndpointBufferState::Empty => {},
            }
        }
        i = i + 1;
    }
    (ep_out, ep_setup)
}

} // verus!
