//! The eight endpoint slots and the memory that their receive buffers are cut from.

use vstd::prelude::*;
use crate::endpoint::{configuration_of, EndpointView, SynopsysEndpoint};
use crate::endpoint_memory::{words_for, BufferView, EndpointBufferState, EndpointMemoryAllocator};
use crate::types::{
    EndpointAddress, EndpointConfig, EndpointDescriptor, UsbDirection, UsbError,
};

verus! {

/// The number of endpoint slots in each direction.
pub const NUM_ENDPOINTS: usize = 4;

/// The slots of one direction and the state of the buffer memory, as the
/// users of the allocator see them.
pub struct AllocatorView {
    pub endpoints_in: Seq<EndpointView>,
    pub endpoints_out: Seq<EndpointView>,
    /// The words of buffer memory handed out so far.
    pub allocated_words: nat,
    /// The size of the buffer memory in words.
    pub capacity_words: nat,
}

/// The least number from 1 on whose slot is not initialized. Slot 0 is kept
/// for the control endpoint and is never picked.
pub open spec fn first_free(slots: Seq<EndpointView>) -> Option<u8> {
    if !slots[1].is_initialized() {
        Some(1u8)
    } else if !slots[2].is_initialized() {
        Some(2u8)
    } else if !slots[3].is_initialized() {
        Some(3u8)
    } else {
        None
    }
}

/// The slot that a request gets among `slots`, the slots of `direction`.
///
/// A request by address gets the slot of that address if it is one of the
/// slots and not initialized, and `InvalidEndpoint` otherwise. A request
/// without address gets the first free slot from 1 on, and `EndpointOverflow`
/// if there is none.
pub open spec fn find_free(
    slots: Seq<EndpointView>,
    direction: UsbDirection,
    ep_addr: Option<EndpointAddress>,
) -> Result<u8, UsbError> {
    match ep_addr {
        Some(address) => {
            if address.direction == direction && address.number < NUM_ENDPOINTS
                && !slots[address.number as int].is_initialized() {
                Ok(address.number)
            } else {
                Err(UsbError::InvalidEndpoint)
            }
        },
        None => match first_free(slots) {
            Some(number) => Ok(number),
            None => Err(UsbError::EndpointOverflow),
        },
    }
}

/// The address that a request names, if it names a number.
pub open spec fn requested_address(config: EndpointConfig, direction: UsbDirection) -> Option<
    EndpointAddress,
> {
    match config.number {
        Some(number) => Some(EndpointAddress { number, direction }),
        None => None,
    }
}

impl AllocatorView {
    /// There are four slots in each direction, slot `i` has the number `i`,
    /// every slot keeps its invariant, and no more memory is handed out than
    /// there is.
    pub open spec fn wf(self) -> bool {
        &&& self.endpoints_in.len() == NUM_ENDPOINTS
        &&& self.endpoints_out.len() == NUM_ENDPOINTS
        &&& forall|i: int|
            0 <= i < NUM_ENDPOINTS ==> {
                &&& (#[trigger] self.endpoints_in[i]).wf()
                &&& self.endpoints_in[i].address == (EndpointAddress {
                    number: i as u8,
                    direction: UsbDirection::In,
                })
            }
        &&& forall|i: int|
            0 <= i < NUM_ENDPOINTS ==> {
                &&& (#[trigger] self.endpoints_out[i]).wf()
                &&& self.endpoints_out[i].address == (EndpointAddress {
                    number: i as u8,
                    direction: UsbDirection::Out,
                })
            }
        &&& self.allocated_words <= self.capacity_words
    }

    /// What an IN allocation returns.
    pub open spec fn alloc_in_result(self, config: EndpointConfig) -> Result<
        EndpointAddress,
        UsbError,
    > {
        match find_free(
            self.endpoints_in,
            UsbDirection::In,
            requested_address(config, UsbDirection::In),
        ) {
            Ok(number) => Ok(EndpointAddress { number, direction: UsbDirection::In }),
            Err(e) => Err(e),
        }
    }

    /// The allocator after an IN allocation: the slot that was found holds
    /// the configuration, and nothing else has changed.
    pub open spec fn alloc_in(self, config: EndpointConfig) -> AllocatorView {
        match self.alloc_in_result(config) {
            Ok(address) => AllocatorView {
                endpoints_in: self.endpoints_in.update(
                    address.number as int,
                    EndpointView {
                        address,
                        configuration: Some(configuration_of(config)),
                        buffer: None,
                    },
                ),
                ..self
            },
            Err(_) => self,
        }
    }

    /// What an OUT allocation returns: the slot is found first, and then the
    /// buffer memory has to have room for the largest packet.
    pub open spec fn alloc_out_result(self, config: EndpointConfig) -> Result<
        EndpointAddress,
        UsbError,
    > {
        match find_free(
            self.endpoints_out,
            UsbDirection::Out,
            requested_address(config, UsbDirection::Out),
        ) {
            Ok(number) => {
                if self.allocated_words + words_for(config.max_packet_size as nat)
                    <= self.capacity_words {
                    Ok(EndpointAddress { number, direction: UsbDirection::Out })
                } else {
                    Err(UsbError::OutOfMemory)
                }
            },
            Err(e) => Err(e),
        }
    }

    /// The allocator after an OUT allocation: the slot that was found holds
    /// the configuration and an empty buffer for the largest packet, the
    /// words of that buffer are handed out, and nothing else has changed.
    pub open spec fn alloc_out(self, config: EndpointConfig) -> AllocatorView {
        match self.alloc_out_result(config) {
            Ok(address) => AllocatorView {
                endpoints_out: self.endpoints_out.update(
                    address.number as int,
                    EndpointView {
                        address,
                        configuration: Some(configuration_of(config)),
                        buffer: Some(
                            BufferView {
                                capacity: 4 * words_for(config.max_packet_size as nat),
                                state: EndpointBufferState::Empty,
                                packet: Seq::empty(),
                            },
                        ),
                    },
                ),
                allocated_words: self.allocated_words + words_for(config.max_packet_size as nat),
                ..self
            },
            Err(_) => self,
        }
    }
}

/// Whether every slot that is initialized in `earlier` is initialized in
/// `later`.
pub open spec fn keeps_initialized(earlier: Seq<EndpointView>, later: Seq<EndpointView>) -> bool {
    forall|i: int|
        0 <= i < NUM_ENDPOINTS && (#[trigger] earlier[i]).is_initialized()
            ==> later[i].is_initialized()
}

/// Whether the slots of `later` have the addresses of those of `earlier`, and
/// every slot that is initialized in `earlier` has the same configuration in
/// `later`.
pub open spec fn keeps_configuration(earlier: AllocatorView, later: AllocatorView) -> bool {
    &&& forall|i: int|
        0 <= i < NUM_ENDPOINTS ==> {
            &&& (#[trigger] later.endpoints_in[i]).address == earlier.endpoints_in[i].address
            &&& earlier.endpoints_in[i].is_initialized() ==> later.endpoints_in[i].configuration
                == earlier.endpoints_in[i].configuration
        }
    &&& forall|i: int|
        0 <= i < NUM_ENDPOINTS ==> {
            &&& (#[trigger] later.endpoints_out[i]).address == earlier.endpoints_out[i].address
            &&& earlier.endpoints_out[i].is_initialized() ==> later.endpoints_out[i].configuration
                == earlier.endpoints_out[i].configuration
        }
}

/// The slot that a request without address gets is the least free one from
/// 1 on: it is never slot 0, it is free, and every slot between 1 and it is
/// taken. So the first such request gets slot 1. The request fails only when
/// slots 1 to 3 are all taken.
pub proof fn lemma_first_free_is_least(slots: Seq<EndpointView>, direction: UsbDirection)
    ensures
        !slots[1].is_initialized() ==> find_free(slots, direction, None) == Ok::<u8, UsbError>(1u8),
        match find_free(slots, direction, None) {
            Ok(number) => {
                &&& 1 <= number < NUM_ENDPOINTS
                &&& !slots[number as int].is_initialized()
                &&& forall|j: int| 1 <= j < number ==> (#[trigger] slots[j]).is_initialized()
            },
            Err(e) => {
                &&& e == UsbError::EndpointOverflow
                &&& forall|j: int| 1 <= j < NUM_ENDPOINTS ==> (#[trigger] slots[j]).is_initialized()
            },
        },
{
}

/// Requests without address get strictly increasing numbers, starting at 1
/// or above: once such a request got slot `first` and the slot was claimed,
/// no later request of the kind gets a number up to `first`, whatever was
/// allocated in between.
pub proof fn lemma_allocation_monotonic(
    before: Seq<EndpointView>,
    claimed: EndpointView,
    later: Seq<EndpointView>,
    direction: UsbDirection,
)
    requires
        before.len() == NUM_ENDPOINTS,
        later.len() == NUM_ENDPOINTS,
        find_free(before, direction, None) is Ok,
        claimed.is_initialized(),
        keeps_initialized(
            before.update(find_free(before, direction, None).unwrap() as int, claimed),
            later,
        ),
        find_free(later, direction, None) is Ok,
    ensures
        1 <= find_free(before, direction, None).unwrap() < find_free(
            later,
            direction,
            None,
        ).unwrap(),
{
    let first = find_free(before, direction, None).unwrap();
    let taken = before.update(first as int, claimed);
    lemma_first_free_is_least(before, direction);
    lemma_first_free_is_least(later, direction);
    assert forall|j: int| 1 <= j <= first implies (#[trigger] later[j]).is_initialized() by {
        assert(taken[j].is_initialized());
    }
}

/// An IN allocation only ever initializes: the slots that were initialized
/// stay so with their configuration, the slot that is handed out is of
/// direction IN and has the number that was asked for, and its descriptor
/// is that of the request.
pub proof fn lemma_alloc_in_freezes(view: AllocatorView, config: EndpointConfig)
    requires
        view.wf(),
    ensures
        view.alloc_in(config).wf(),
        keeps_initialized(view.endpoints_in, view.alloc_in(config).endpoints_in),
        keeps_initialized(view.endpoints_out, view.alloc_in(config).endpoints_out),
        keeps_configuration(view, view.alloc_in(config)),
        view.alloc_in_result(config) matches Ok(address) ==> {
            &&& address.direction is In
            &&& address.number < NUM_ENDPOINTS
            &&& config.number matches Some(number) ==> address.number == number
            &&& !view.endpoints_in[address.number as int].is_initialized()
            &&& view.alloc_in(config).endpoints_in[address.number as int].configuration == Some(
                configuration_of(config),
            )
            &&& view.alloc_in(config).endpoints_in[address.number as int].descriptor() == (
            EndpointDescriptor {
                address,
                ep_type: config.ep_type,
                max_packet_size: config.max_packet_size,
                interval: config.interval,
                audio_streaming_extension: configuration_of(config).audio_streaming_extension,
            })
        },
{
    lemma_first_free_is_least(view.endpoints_in, UsbDirection::In);
}

/// An OUT allocation only ever initializes: the slots that were initialized
/// stay so with their configuration, the slot that is handed out is of
/// direction OUT and has the number that was asked for, and its descriptor
/// is that of the request.
pub proof fn lemma_alloc_out_freezes(view: AllocatorView, config: EndpointConfig)
    requires
        view.wf(),
    ensures
        view.alloc_out(config).wf(),
        keeps_initialized(view.endpoints_in, view.alloc_out(config).endpoints_in),
        keeps_initialized(view.endpoints_out, view.alloc_out(config).endpoints_out),
        keeps_configuration(view, view.alloc_out(config)),
        view.alloc_out_result(config) matches Ok(address) ==> {
            &&& address.direction is Out
            &&& address.number < NUM_ENDPOINTS
            &&& config.number matches Some(number) ==> address.number == number
            &&& !view.endpoints_out[address.number as int].is_initialized()
            &&& view.alloc_out(config).endpoints_out[address.number as int].configuration == Some(
                configuration_of(config),
            )
            &&& view.alloc_out(config).endpoints_out[address.number as int].descriptor() == (
            EndpointDescriptor {
                address,
                ep_type: config.ep_type,
                max_packet_size: config.max_packet_size,
                interval: config.interval,
                audio_streaming_extension: configuration_of(config).audio_streaming_extension,
            })
        },
{
    lemma_first_free_is_least(view.endpoints_out, UsbDirection::Out);
}

/// A slot that is initialized is not handed out again: a request by address
/// for it fails with `InvalidEndpoint`, in either direction and however the
/// slot came to be initialized.
pub proof fn lemma_taken_slot_is_refused(view: AllocatorView, config: EndpointConfig)
    requires
        view.wf(),
        config.number is Some,
    ensures
        config.number.unwrap() >= NUM_ENDPOINTS || view.endpoints_in[config.number.unwrap() as int].is_initialized()
            ==> view.alloc_in_result(config) == Err::<EndpointAddress, UsbError>(
            UsbError::InvalidEndpoint,
        ),
        config.number.unwrap() >= NUM_ENDPOINTS || view.endpoints_out[config.number.unwrap() as int].is_initialized()
            ==> view.alloc_out_result(config) == Err::<EndpointAddress, UsbError>(
            UsbError::InvalidEndpoint,
        ),
{
}

/// A second allocation of the number that a first one got by asking for it
/// fails with `InvalidEndpoint`.
pub proof fn lemma_second_allocation_fails(
    view: AllocatorView,
    first: EndpointConfig,
    second: EndpointConfig,
)
    requires
        view.wf(),
        first.number is Some,
        second.number == first.number,
    ensures
        view.alloc_in_result(first) is Ok ==> view.alloc_in(first).alloc_in_result(second) == Err::<
            EndpointAddress,
            UsbError,
        >(UsbError::InvalidEndpoint),
        view.alloc_out_result(first) is Ok ==> view.alloc_out(first).alloc_out_result(second)
            == Err::<EndpointAddress, UsbError>(UsbError::InvalidEndpoint),
{
}

/// Holds the endpoint slots, four in each direction, and the memory of the
/// receive buffers.
pub struct SynopsysEndpointAllocator {
    pub endpoints_in: [SynopsysEndpoint; 4],
    pub endpoints_out: [SynopsysEndpoint; 4],
    pub memory_allocator: EndpointMemoryAllocator,
}

impl View for SynopsysEndpointAllocator {
    type V = AllocatorView;

    open spec fn view(&self) -> AllocatorView {
        AllocatorView {
            endpoints_in: Seq::new(NUM_ENDPOINTS as nat, |i: int| self.endpoints_in[i]@),
            endpoints_out: Seq::new(NUM_ENDPOINTS as nat, |i: int| self.endpoints_out[i]@),
            allocated_words: self.memory_allocator.allocated_words(),
            capacity_words: self.memory_allocator.capacity_words(),
        }
    }
}

impl SynopsysEndpointAllocator {
    /// Every slot, the memory and the view keep their invariants.
    pub open spec fn wf(&self) -> bool {
        &&& self@.wf()
        &&& self.memory_allocator.wf()
        &&& forall|i: int| 0 <= i < NUM_ENDPOINTS ==> (#[trigger] self.endpoints_in[i]).wf()
        &&& forall|i: int| 0 <= i < NUM_ENDPOINTS ==> (#[trigger] self.endpoints_out[i]).wf()
    }

    /// An allocator whose slots are all free, over a region of buffer memory.
    pub fn new(ep_memory: &'static mut [u32]) -> (allocator: SynopsysEndpointAllocator)
        ensures
            allocator.wf(),
            allocator@.capacity_words == old(ep_memory)@.len(),
            allocator@.allocated_words == 0,
            forall|i: int|
                0 <= i < NUM_ENDPOINTS ==> !(#[trigger] allocator@.endpoints_in[i]).is_initialized(),
            forall|i: int|
                0 <= i < NUM_ENDPOINTS ==> !(#[trigger] allocator@.endpoints_out[i]).is_initialized(),
    {
        let allocator = SynopsysEndpointAllocator {
            endpoints_in: [
                SynopsysEndpoint::new(EndpointAddress::from_parts(0, UsbDirection::In)),
                SynopsysEndpoint::new(EndpointAddress::from_parts(1, UsbDirection::In)),
                SynopsysEndpoint::new(EndpointAddress::from_parts(2, UsbDirection::In)),
                SynopsysEndpoint::new(EndpointAddress::from_parts(3, UsbDirection::In)),
            ],
            endpoints_out: [
                SynopsysEndpoint::new(EndpointAddress::from_parts(0, UsbDirection::Out)),
                SynopsysEndpoint::new(EndpointAddress::from_parts(1, UsbDirection::Out)),
                SynopsysEndpoint::new(EndpointAddress::from_parts(2, UsbDirection::Out)),
                SynopsysEndpoint::new(EndpointAddress::from_parts(3, UsbDirection::Out)),
            ],
            memory_allocator: EndpointMemoryAllocator::new(ep_memory),
        };
        proof {
            allocator.memory_allocator.lemma_wf_counts();
        }
        allocator
    }

    /// Finds the slot for a request in one direction and returns its number.
    /// The slot is not changed.
    #[verifier::loop_isolation(false)]
    pub fn find_free_endpoint(
        &self,
        direction: UsbDirection,
        ep_addr: Option<EndpointAddress>,
    ) -> (result: Result<u8, UsbError>)
        requires
            self.wf(),
        ensures
            result == find_free(
                match direction {
                    UsbDirection::In => self@.endpoints_in,
                    UsbDirection::Out => self@.endpoints_out,
                },
                direction,
                ep_addr,
            ),
            result matches Ok(number) ==> number < NUM_ENDPOINTS,
    {
        let endpoints = match direction {
            UsbDirection::In => &self.endpoints_in,
            UsbDirection::Out => &self.endpoints_out,
        };
        let ghost slots = match direction {
            UsbDirection::In => self@.endpoints_in,
            UsbDirection::Out => self@.endpoints_out,
        };
        match ep_addr {
            Some(address) => {
                let mut i: usize = 0;
                while i < NUM_ENDPOINTS
                    invariant
                        i <= NUM_ENDPOINTS,
                        forall|k: int|
                            0 <= k < NUM_ENDPOINTS ==> slots[k] == (#[trigger] endpoints[k])@,
                        forall|k: int|
                            0 <= k < NUM_ENDPOINTS ==> (#[trigger] slots[k]).address == (
                            EndpointAddress { number: k as u8, direction }),
                        forall|k: int| 0 <= k < i ==> (#[trigger] slots[k]).address != address,
                    decreases NUM_ENDPOINTS - i,
                {
                    if endpoints[i].address() == address {
                        if !endpoints[i].is_initialized() {
                            return Ok(i as u8);
                        } else {
                            return Err(UsbError::InvalidEndpoint);
                        }
                    }
                    i = i + 1;
                }
                Err(UsbError::InvalidEndpoint)
            },
            None => {
                let mut i: usize = 1;
                while i < NUM_ENDPOINTS
                    invariant
                        1 <= i <= NUM_ENDPOINTS,
                        forall|k: int|
                            0 <= k < NUM_ENDPOINTS ==> slots[k] == (#[trigger] endpoints[k])@,
                        forall|k: int| 1 <= k < i ==> (#[trigger] slots[k]).is_initialized(),
                    decreases NUM_ENDPOINTS - i,
                {
                    if !endpoints[i].is_initialized() {
                        return Ok(i as u8);
                    }
                    i = i + 1;
                }
                Err(UsbError::EndpointOverflow)
            },
        }
    }

    /// Allocates an IN endpoint with the given configuration.
    pub fn alloc_in(&mut self, config: &EndpointConfig) -> (result: Result<
        EndpointAddress,
        UsbError,
    >)
        requires
            old(self).wf(),
        ensures
            final(self).wf(),
            result == old(self)@.alloc_in_result(*config),
            final(self)@ == old(self)@.alloc_in(*config),
    {
        let ep_addr = match config.number {
            Some(number) => Some(EndpointAddress::from_parts(number, UsbDirection::In)),
            None => None,
        };
        let number = match self.find_free_endpoint(UsbDirection::In, ep_addr) {
            Ok(number) => number,
            Err(e) => {
                return Err(e);
            },
        };
        self.endpoints_in[number as usize].initialize(UsbDirection::In, config, None);
        proof {
            assert(self@.endpoints_in =~= old(self)@.alloc_in(*config).endpoints_in);
        }
        Ok(EndpointAddress::from_parts(number, UsbDirection::In))
    }

    /// Allocates an OUT endpoint with the given configuration, and a receive
    /// buffer for its largest packet.
    pub fn alloc_out(&mut self, config: &EndpointConfig) -> (result: Result<
        EndpointAddress,
        UsbError,
    >)
        requires
            old(self).wf(),
        ensures
            final(self).wf(),
            result == old(self)@.alloc_out_result(*config),
            final(self)@ == old(self)@.alloc_out(*config),
    {
        let ep_addr = match config.number {
            Some(number) => Some(EndpointAddress::from_parts(number, UsbDirection::Out)),
            None => None,
        };
        let number = match self.find_free_endpoint(UsbDirection::Out, ep_addr) {
            Ok(number) => number,
            Err(e) => {
                return Err(e);
            },
        };
        proof {
            self.memory_allocator.lemma_wf_counts();
        }
        let buffer = match self.memory_allocator.allocate_rx_buffer(
            config.max_packet_size as usize,
        ) {
            Ok(buffer) => buffer,
            Err(e) => {
                return Err(e);
            },
        };
        self.endpoints_out[number as usize].initialize(UsbDirection::Out, config, Some(buffer));
        proof {
            self.memory_allocator.lemma_wf_counts();
            assert(self@.endpoints_out =~= old(self)@.alloc_out(*config).endpoints_out);
        }
        Ok(EndpointAddress::from_parts(number, UsbDirection::Out))
    }
}

} // verus!
