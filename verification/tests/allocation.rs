//! Endpoint slots and receive buffer memory, without a controller.

use synopsys_usb_otg::endpoint::SynopsysEndpointConfiguration;
use synopsys_usb_otg::endpoint_allocator::{SynopsysEndpointAllocator, NUM_ENDPOINTS};
use synopsys_usb_otg::endpoint_memory::{EndpointBufferState, EndpointMemoryAllocator};
use synopsys_usb_otg::fifo::tx_fifo_words;
use synopsys_usb_otg::types::{
    AudioStreamingExtension, EndpointAddress, EndpointConfig, EndpointDescriptor, EndpointType,
    UsbDirection, UsbError,
};

fn memory(words: usize) -> &'static mut [u32] {
    Box::leak(vec![0u32; words].into_boxed_slice())
}

fn any(ep_type: EndpointType, max_packet_size: u16) -> EndpointConfig {
    EndpointConfig { number: None, ep_type, max_packet_size, interval: 0, is_audio_streaming: false }
}

fn numbered(number: u8, ep_type: EndpointType, max_packet_size: u16) -> EndpointConfig {
    EndpointConfig {
        number: Some(number),
        ep_type,
        max_packet_size,
        interval: 0,
        is_audio_streaming: false,
    }
}

fn ep_in(number: u8) -> EndpointAddress {
    EndpointAddress::from_parts(number, UsbDirection::In)
}

fn ep_out(number: u8) -> EndpointAddress {
    EndpointAddress::from_parts(number, UsbDirection::Out)
}

#[test]
fn new_allocator_has_eight_free_slots() {
    let allocator = SynopsysEndpointAllocator::new(memory(32));
    assert_eq!(NUM_ENDPOINTS, 4);
    for i in 0..4 {
        assert_eq!(allocator.endpoints_in[i].address(), ep_in(i as u8));
        assert_eq!(allocator.endpoints_out[i].address(), ep_out(i as u8));
        assert!(!allocator.endpoints_in[i].is_initialized());
        assert!(!allocator.endpoints_out[i].is_initialized());
        assert_eq!(allocator.endpoints_in[i].fifo_size_words(), 0);
        assert_eq!(allocator.endpoints_out[i].buffer_state(), EndpointBufferState::Empty);
    }
    assert_eq!(allocator.memory_allocator.total_rx_buffer_size_words(), 0);
}

#[test]
fn free_slot_describes_an_empty_control_endpoint() {
    let allocator = SynopsysEndpointAllocator::new(memory(0));
    assert_eq!(
        allocator.endpoints_out[2].descriptor(),
        EndpointDescriptor {
            address: ep_out(2),
            ep_type: EndpointType::Control,
            max_packet_size: 0,
            interval: 0,
            audio_streaming_extension: None,
        }
    );
    assert_eq!(allocator.endpoints_out[2].ep_type(), EndpointType::Control);
    assert_eq!(allocator.endpoints_out[2].max_packet_size(), 0);
    assert_eq!(allocator.endpoints_out[2].interval(), 0);
}

#[test]
fn allocation_without_number_counts_up_from_one() {
    let mut allocator = SynopsysEndpointAllocator::new(memory(64));
    assert_eq!(allocator.alloc_in(&any(EndpointType::Bulk, 64)), Ok(ep_in(1)));
    assert_eq!(allocator.alloc_in(&any(EndpointType::Bulk, 64)), Ok(ep_in(2)));
    assert_eq!(allocator.alloc_in(&any(EndpointType::Bulk, 64)), Ok(ep_in(3)));
    assert_eq!(
        allocator.alloc_in(&any(EndpointType::Bulk, 64)),
        Err(UsbError::EndpointOverflow)
    );
    assert!(!allocator.endpoints_in[0].is_initialized());
    assert_eq!(allocator.alloc_out(&any(EndpointType::Bulk, 8)), Ok(ep_out(1)));
    assert_eq!(allocator.alloc_out(&any(EndpointType::Bulk, 8)), Ok(ep_out(2)));
    assert_eq!(allocator.alloc_out(&any(EndpointType::Bulk, 8)), Ok(ep_out(3)));
    assert_eq!(
        allocator.alloc_out(&any(EndpointType::Bulk, 8)),
        Err(UsbError::EndpointOverflow)
    );
    assert!(!allocator.endpoints_out[0].is_initialized());
}

#[test]
fn allocation_without_number_skips_taken_slots() {
    let mut allocator = SynopsysEndpointAllocator::new(memory(64));
    assert_eq!(allocator.alloc_in(&numbered(2, EndpointType::Interrupt, 8)), Ok(ep_in(2)));
    assert_eq!(allocator.alloc_in(&any(EndpointType::Bulk, 64)), Ok(ep_in(1)));
    assert_eq!(allocator.alloc_in(&any(EndpointType::Bulk, 64)), Ok(ep_in(3)));
    assert_eq!(
        allocator.alloc_in(&any(EndpointType::Bulk, 64)),
        Err(UsbError::EndpointOverflow)
    );
    assert_eq!(allocator.alloc_in(&numbered(0, EndpointType::Control, 8)), Ok(ep_in(0)));
}

#[test]
fn slot_is_handed_out_once() {
    let mut allocator = SynopsysEndpointAllocator::new(memory(64));
    assert_eq!(allocator.alloc_in(&numbered(1, EndpointType::Bulk, 64)), Ok(ep_in(1)));
    assert_eq!(
        allocator.alloc_in(&numbered(1, EndpointType::Bulk, 64)),
        Err(UsbError::InvalidEndpoint)
    );
    assert_eq!(allocator.alloc_out(&numbered(1, EndpointType::Bulk, 64)), Ok(ep_out(1)));
    assert_eq!(
        allocator.alloc_out(&numbered(1, EndpointType::Interrupt, 8)),
        Err(UsbError::InvalidEndpoint)
    );
    assert_eq!(allocator.memory_allocator.total_rx_buffer_size_words(), 16);
    assert_eq!(allocator.endpoints_out[1].max_packet_size(), 64);
}

#[test]
fn numbers_beyond_the_slots_are_refused() {
    let mut allocator = SynopsysEndpointAllocator::new(memory(64));
    for number in [4u8, 5, 15, 16, 255] {
        assert_eq!(
            allocator.alloc_in(&numbered(number, EndpointType::Bulk, 64)),
            Err(UsbError::InvalidEndpoint)
        );
        assert_eq!(
            allocator.alloc_out(&numbered(number, EndpointType::Bulk, 64)),
            Err(UsbError::InvalidEndpoint)
        );
    }
    assert_eq!(allocator.memory_allocator.total_rx_buffer_size_words(), 0);
}

#[test]
fn find_free_endpoint_goes_by_direction() {
    let mut allocator = SynopsysEndpointAllocator::new(memory(64));
    assert_eq!(allocator.find_free_endpoint(UsbDirection::In, Some(ep_in(3))), Ok(3));
    assert_eq!(allocator.find_free_endpoint(UsbDirection::Out, Some(ep_out(0))), Ok(0));
    assert_eq!(
        allocator.find_free_endpoint(UsbDirection::In, Some(ep_out(3))),
        Err(UsbError::InvalidEndpoint)
    );
    assert_eq!(
        allocator.find_free_endpoint(UsbDirection::Out, Some(ep_in(1))),
        Err(UsbError::InvalidEndpoint)
    );
    assert_eq!(
        allocator.find_free_endpoint(UsbDirection::In, Some(ep_in(4))),
        Err(UsbError::InvalidEndpoint)
    );
    assert_eq!(allocator.find_free_endpoint(UsbDirection::In, None), Ok(1));
    assert_eq!(allocator.find_free_endpoint(UsbDirection::In, None), Ok(1));
    assert!(allocator.alloc_in(&any(EndpointType::Bulk, 8)).is_ok());
    assert_eq!(allocator.find_free_endpoint(UsbDirection::In, None), Ok(2));
    assert_eq!(allocator.find_free_endpoint(UsbDirection::Out, None), Ok(1));
    assert_eq!(
        allocator.find_free_endpoint(UsbDirection::In, Some(ep_in(1))),
        Err(UsbError::InvalidEndpoint)
    );
}

#[test]
fn descriptor_is_that_of_the_request() {
    let mut allocator = SynopsysEndpointAllocator::new(memory(64));
    let request = EndpointConfig {
        number: Some(3),
        ep_type: EndpointType::Isochronous,
        max_packet_size: 192,
        interval: 1,
        is_audio_streaming: true,
    };
    assert_eq!(allocator.alloc_in(&request), Ok(ep_in(3)));
    let slot = &allocator.endpoints_in[3];
    assert!(slot.is_initialized());
    assert_eq!(
        slot.descriptor(),
        EndpointDescriptor {
            address: ep_in(3),
            ep_type: EndpointType::Isochronous,
            max_packet_size: 192,
            interval: 1,
            audio_streaming_extension: Some(AudioStreamingExtension {
                synchronization_address: None
            }),
        }
    );
    assert_eq!(slot.ep_type(), EndpointType::Isochronous);
    assert_eq!(slot.max_packet_size(), 192);
    assert_eq!(slot.interval(), 1);
    assert_eq!(slot.fifo_size_words(), 48);
    assert_eq!(allocator.alloc_out(&any(EndpointType::Interrupt, 10)), Ok(ep_out(1)));
    assert_eq!(
        allocator.endpoints_out[1].descriptor(),
        EndpointDescriptor {
            address: ep_out(1),
            ep_type: EndpointType::Interrupt,
            max_packet_size: 10,
            interval: 0,
            audio_streaming_extension: None,
        }
    );
    assert_eq!(
        allocator.endpoints_in[3].descriptor().max_packet_size,
        192
    );
}

#[test]
fn fifo_words_round_up() {
    for (size, words) in [(0u16, 0u32), (1, 1), (3, 1), (4, 1), (5, 2), (63, 16), (64, 16), (65, 17), (1023, 256), (u16::MAX, 16384)] {
        let mut allocator = SynopsysEndpointAllocator::new(memory(0));
        assert!(allocator.alloc_in(&any(EndpointType::Bulk, size)).is_ok());
        assert_eq!(allocator.endpoints_in[1].fifo_size_words(), words);
    }
}

#[test]
fn transmit_regions_have_a_least_size() {
    let mut allocator = SynopsysEndpointAllocator::new(memory(0));
    assert!(allocator.alloc_in(&numbered(0, EndpointType::Control, 8)).is_ok());
    assert!(allocator.alloc_in(&numbered(1, EndpointType::Bulk, 64)).is_ok());
    assert!(allocator.alloc_in(&numbered(2, EndpointType::Bulk, 65)).is_ok());
    assert_eq!(tx_fifo_words(&allocator.endpoints_in[0]), 16);
    assert_eq!(tx_fifo_words(&allocator.endpoints_in[1]), 16);
    assert_eq!(tx_fifo_words(&allocator.endpoints_in[2]), 17);
    assert_eq!(tx_fifo_words(&allocator.endpoints_in[3]), 16);
}

#[test]
fn out_allocation_takes_buffer_words() {
    let mut allocator = SynopsysEndpointAllocator::new(memory(20));
    assert_eq!(allocator.alloc_out(&any(EndpointType::Bulk, 5)), Ok(ep_out(1)));
    assert_eq!(allocator.memory_allocator.total_rx_buffer_size_words(), 2);
    assert_eq!(allocator.alloc_out(&any(EndpointType::Bulk, 64)), Ok(ep_out(2)));
    assert_eq!(allocator.memory_allocator.total_rx_buffer_size_words(), 18);
    assert_eq!(allocator.alloc_out(&any(EndpointType::Bulk, 9)), Err(UsbError::OutOfMemory));
    assert_eq!(allocator.memory_allocator.total_rx_buffer_size_words(), 18);
    assert!(!allocator.endpoints_out[3].is_initialized());
    assert_eq!(allocator.alloc_out(&any(EndpointType::Bulk, 8)), Ok(ep_out(3)));
    assert_eq!(allocator.memory_allocator.total_rx_buffer_size_words(), 20);
    assert_eq!(allocator.alloc_out(&numbered(0, EndpointType::Control, 1)), Err(UsbError::OutOfMemory));
    assert_eq!(allocator.alloc_out(&numbered(0, EndpointType::Control, 0)), Ok(ep_out(0)));
}

#[test]
fn in_allocation_takes_no_buffer_words() {
    let mut allocator = SynopsysEndpointAllocator::new(memory(0));
    assert_eq!(allocator.alloc_in(&any(EndpointType::Bulk, 512)), Ok(ep_in(1)));
    assert_eq!(allocator.memory_allocator.total_rx_buffer_size_words(), 0);
    assert_eq!(allocator.endpoints_in[1].buffer_state(), EndpointBufferState::Empty);
}

#[test]
fn slot_is_found_before_memory_is_asked_for() {
    let mut allocator = SynopsysEndpointAllocator::new(memory(0));
    assert_eq!(
        allocator.alloc_out(&numbered(7, EndpointType::Bulk, 64)),
        Err(UsbError::InvalidEndpoint)
    );
    assert_eq!(
        allocator.alloc_out(&numbered(1, EndpointType::Bulk, 64)),
        Err(UsbError::OutOfMemory)
    );
}

#[test]
fn arena_hands_out_words_front_to_back() {
    let mut arena = EndpointMemoryAllocator::new(memory(10));
    assert_eq!(arena.total_rx_buffer_size_words(), 0);
    let first = arena.allocate_rx_buffer(8).unwrap();
    assert_eq!(first.capacity_words(), 2);
    assert_eq!(first.state(), EndpointBufferState::Empty);
    assert_eq!(arena.total_rx_buffer_size_words(), 2);
    let second = arena.allocate_rx_buffer(29).unwrap();
    assert_eq!(second.capacity_words(), 8);
    assert_eq!(arena.total_rx_buffer_size_words(), 10);
    assert!(matches!(arena.allocate_rx_buffer(1), Err(UsbError::OutOfMemory)));
    let none = arena.allocate_rx_buffer(0).unwrap();
    assert_eq!(none.capacity_words(), 0);
    assert_eq!(arena.total_rx_buffer_size_words(), 10);
}

#[test]
fn arena_refuses_what_cannot_be_counted() {
    let mut arena = EndpointMemoryAllocator::new(memory(4));
    assert!(matches!(arena.allocate_rx_buffer(usize::MAX), Err(UsbError::OutOfMemory)));
    assert!(matches!(arena.allocate_rx_buffer(17), Err(UsbError::OutOfMemory)));
    assert_eq!(arena.total_rx_buffer_size_words(), 0);
    assert!(arena.allocate_rx_buffer(16).is_ok());
}

#[test]
fn configuration_holds_what_was_asked() {
    let configuration = SynopsysEndpointConfiguration {
        ep_type: EndpointType::Bulk,
        max_packet_size: 64,
        interval: 0,
        audio_streaming_extension: None,
    };
    assert_eq!(configuration, configuration.clone());
    assert_eq!(configuration.max_packet_size, 64);
}
