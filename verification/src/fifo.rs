//! The partition of the controller's FIFO memory: one receive region shared
//! by all OUT endpoints, followed by one transmit region per IN endpoint.

use vstd::prelude::*;
use crate::endpoint::{EndpointView, SynopsysEndpoint};
use crate::endpoint_allocator::{AllocatorView, NUM_ENDPOINTS};
use crate::ral::{Access, Register, TXFIFO_DEPTH_SHIFT};

verus! {

/// No transmit region is smaller than this many words.
pub const MIN_TX_FIFO_WORDS: u32 = 16;

/// The words that the receive region has beyond the receive buffers.
pub open spec fn spec_rx_fifo_slack(high_speed: bool) -> u32 {
    if high_speed {
        30
    } else {
        20
    }
}

/// Returns the words that the receive region has beyond the receive buffers.
#[verifier::when_used_as_spec(spec_rx_fifo_slack)]
pub fn rx_fifo_slack(high_speed: bool) -> (words: u32)
    ensures
        words == spec_rx_fifo_slack(high_speed),
{
    if high_speed {
        30
    } else {
        20
    }
}

/// The size of the controller's FIFO memory in words.
pub open spec fn spec_fifo_depth_words(high_speed: bool) -> u32 {
    if high_speed {
        1024
    } else {
        320
    }
}

/// Returns the size of the controller's FIFO memory in words.
#[verifier::when_used_as_spec(spec_fifo_depth_words)]
pub fn fifo_depth_words(high_speed: bool) -> (words: u32)
    ensures
        words == spec_fifo_depth_words(high_speed),
{
    if high_speed {
        1024
    } else {
        320
    }
}

/// The size of the receive region: the receive buffers and the slack.
pub open spec fn rx_fifo_size(view: AllocatorView, high_speed: bool) -> nat {
    view.allocated_words + spec_rx_fifo_slack(high_speed) as nat
}

/// The size of the transmit region of an IN slot: what its largest packet
/// takes, and at least `MIN_TX_FIFO_WORDS`.
pub open spec fn tx_fifo_size(slot: EndpointView) -> nat {
    if slot.fifo_size_words() > MIN_TX_FIFO_WORDS {
        slot.fifo_size_words()
    } else {
        MIN_TX_FIFO_WORDS as nat
    }
}

/// Returns the size of the transmit region of an IN slot.
pub fn tx_fifo_words(slot: &SynopsysEndpoint) -> (words: u32)
    ensures
        words == tx_fifo_size(slot@),
{
    let words = slot.fifo_size_words();
    if words > MIN_TX_FIFO_WORDS {
        words
    } else {
        MIN_TX_FIFO_WORDS
    }
}

/// Where the transmit region of IN slot `i` starts: after the receive region
/// and the transmit regions of the slots before it. For `i` of 4 this is
/// where the last region ends.
pub open spec fn tx_fifo_start(view: AllocatorView, high_speed: bool, i: nat) -> nat
    decreases i,
{
    if i == 0 {
        rx_fifo_size(view, high_speed)
    } else {
        tx_fifo_start(view, high_speed, (i - 1) as nat) + tx_fifo_size(view.endpoints_in[i - 1])
    }
}

/// The words that the whole partition takes.
pub open spec fn fifo_top(view: AllocatorView, high_speed: bool) -> nat {
    tx_fifo_start(view, high_speed, NUM_ENDPOINTS as nat)
}

/// Whether the partition fits the controller's FIFO memory.
pub open spec fn partition_fits(view: AllocatorView, high_speed: bool) -> bool {
    fifo_top(view, high_speed) <= spec_fifo_depth_words(high_speed)
}

/// The register that holds the size and start of transmit region `i`.
pub open spec fn spec_tx_fifo_register(i: u8) -> Register {
    if i == 0 {
        Register::Dieptxf0
    } else {
        Register::Dieptxf(i)
    }
}

/// Returns the register that holds the size and start of transmit region `i`.
#[verifier::when_used_as_spec(spec_tx_fifo_register)]
pub fn tx_fifo_register(i: u8) -> (reg: Register)
    ensures
        reg == spec_tx_fifo_register(i),
{
    if i == 0 {
        Register::Dieptxf0
    } else {
        Register::Dieptxf(i)
    }
}

/// The word that describes a transmit region: its size in the upper half,
/// its start in the lower half.
pub open spec fn spec_tx_fifo_word(size: u32, start: u32) -> u32 {
    (size << TXFIFO_DEPTH_SHIFT) | start
}

/// Builds the word that describes a transmit region.
#[verifier::when_used_as_spec(spec_tx_fifo_word)]
pub fn tx_fifo_word(size: u32, start: u32) -> (word: u32)
    ensures
        word == spec_tx_fifo_word(size, start),
{
    (size << TXFIFO_DEPTH_SHIFT) | start
}

/// The word that describes transmit region `i`.
pub open spec fn tx_fifo_value(view: AllocatorView, high_speed: bool, i: nat) -> u32 {
    spec_tx_fifo_word(
        tx_fifo_size(view.endpoints_in[i as int]) as u32,
        tx_fifo_start(view, high_speed, i) as u32,
    )
}

/// The write that programs transmit region `i`.
pub open spec fn tx_fifo_write(view: AllocatorView, high_speed: bool, i: nat) -> Access {
    Access::Write {
        reg: spec_tx_fifo_register(i as u8),
        value: tx_fifo_value(view, high_speed, i),
    }
}

/// The writes that program the partition: the size of the receive region,
/// then the transmit regions in the order of their slots.
pub open spec fn partition_trace(view: AllocatorView, high_speed: bool) -> Seq<Access> {
    seq![
        Access::Write { reg: Register::Grxfsiz, value: rx_fifo_size(view, high_speed) as u32 },
        tx_fifo_write(view, high_speed, 0),
        tx_fifo_write(view, high_speed, 1),
        tx_fifo_write(view, high_speed, 2),
        tx_fifo_write(view, high_speed, 3),
    ]
}

/// The regions of a partition lie one after the other from word 0 on, cover
/// exactly `fifo_top` words, and every transmit region has at least
/// `MIN_TX_FIFO_WORDS` words. So a partition that fits puts the receive
/// region and all transmit regions inside the FIFO memory, and no two of
/// them overlap.
pub proof fn lemma_partition_layout(view: AllocatorView, high_speed: bool)
    requires
        view.wf(),
    ensures
        fifo_top(view, high_speed) == rx_fifo_size(view, high_speed) + tx_fifo_size(
            view.endpoints_in[0],
        ) + tx_fifo_size(view.endpoints_in[1]) + tx_fifo_size(view.endpoints_in[2]) + tx_fifo_size(
            view.endpoints_in[3],
        ),
        forall|i: nat|
            i < NUM_ENDPOINTS ==> {
                &&& tx_fifo_size(#[trigger] view.endpoints_in[i as int]) >= MIN_TX_FIFO_WORDS
                &&& tx_fifo_start(view, high_speed, i + 1) == tx_fifo_start(view, high_speed, i)
                    + tx_fifo_size(view.endpoints_in[i as int])
                &&& tx_fifo_start(view, high_speed, i + 1) <= fifo_top(view, high_speed)
            },
        tx_fifo_start(view, high_speed, 0) == rx_fifo_size(view, high_speed),
{
    reveal_with_fuel(tx_fifo_start, 5);
}

/// The size that a word written to a transmit FIFO register gives the region.
pub open spec fn word_depth(word: u32) -> u32 {
    word >> TXFIFO_DEPTH_SHIFT
}

/// The start that a word written to a transmit FIFO register gives the region.
pub open spec fn word_start(word: u32) -> u32 {
    word & 0xffff
}

/// What the registers are told of a partition that fits: the receive size
/// and the sizes of the four transmit regions add up to no more than the
/// FIFO memory holds, every transmit region has at least
/// `MIN_TX_FIFO_WORDS` words, the first transmit region starts where the
/// receive region ends, and each further one where the one before it ends.
pub proof fn lemma_partition_registers(view: AllocatorView, high_speed: bool)
    requires
        view.wf(),
        partition_fits(view, high_speed),
    ensures
        rx_fifo_size(view, high_speed) + word_depth(tx_fifo_value(view, high_speed, 0))
            + word_depth(tx_fifo_value(view, high_speed, 1)) + word_depth(
            tx_fifo_value(view, high_speed, 2),
        ) + word_depth(tx_fifo_value(view, high_speed, 3)) <= spec_fifo_depth_words(high_speed),
        word_start(tx_fifo_value(view, high_speed, 0)) == rx_fifo_size(view, high_speed),
        forall|i: nat|
            i < NUM_ENDPOINTS ==> {
                &&& word_depth(#[trigger] tx_fifo_value(view, high_speed, i)) == tx_fifo_size(
                    view.endpoints_in[i as int],
                )
                &&& word_depth(tx_fifo_value(view, high_speed, i)) >= MIN_TX_FIFO_WORDS
                &&& word_start(tx_fifo_value(view, high_speed, i)) == tx_fifo_start(
                    view,
                    high_speed,
                    i,
                )
                &&& word_start(tx_fifo_value(view, high_speed, i)) + word_depth(
                    tx_fifo_value(view, high_speed, i),
                ) == tx_fifo_start(view, high_speed, i + 1)
                &&& tx_fifo_start(view, high_speed, i + 1) <= spec_fifo_depth_words(high_speed)
            },
{
    lemma_partition_layout(view, high_speed);
    assert forall|i: nat| i < NUM_ENDPOINTS implies {
        &&& word_depth(#[trigger] tx_fifo_value(view, high_speed, i)) == tx_fifo_size(
            view.endpoints_in[i as int],
        )
        &&& word_start(tx_fifo_value(view, high_speed, i)) == tx_fifo_start(view, high_speed, i)
    } by {
        let size = tx_fifo_size(view.endpoints_in[i as int]);
        let start = tx_fifo_start(view, high_speed, i);
        lemma_tx_fifo_word_fields(size as u32, start as u32);
    }
}

/// The word that describes a region of a partition that fits gives back the
/// size and the start of the region.
pub proof fn lemma_tx_fifo_word_fields(size: u32, start: u32)
    requires
        size <= 0xffff,
        start <= 0xffff,
    ensures
        word_depth(spec_tx_fifo_word(size, start)) == size,
        word_start(spec_tx_fifo_word(size, start)) == start,
{
    assert(((size << 16u32) | start) >> 16u32 == size && ((size << 16u32) | start) & 0xffff
        == start) by (bit_vector)
        requires
            size <= 0xffff,
            start <= 0xffff,
    ;
}

} // verus!
