//! Receive buffers of the OUT endpoints and the word arena they are cut from.

use vstd::prelude::*;
use crate::ral::{Access, Register, UsbRegisters, MAX_ENDPOINTS};
use crate::types::UsbError;
use crate::UsbPeripheral;

verus! {

/// The number of 32-bit words that hold `bytes` bytes.
pub open spec fn words_for(bytes: nat) -> nat {
    (bytes + 3) / 4
}

/// Byte `k` of a word, the least significant byte being byte 0.
pub open spec fn spec_word_byte(word: u32, k: usize) -> u8 {
    ((word >> (8 * k) as u32) & 0xff) as u8
}

/// Returns byte `k` of a word, the least significant byte being byte 0.
#[verifier::when_used_as_spec(spec_word_byte)]
pub fn word_byte(word: u32, k: usize) -> (byte: u8)
    requires
        k < 4,
    ensures
        byte == spec_word_byte(word, k),
{
    let shift: u32 = 8 * (k as u32);
    let low: u32 = (word >> shift) & 0xff;
    low as u8
}

/// The first `len` bytes that a run of words holds, each word giving its
/// least significant byte first.
pub open spec fn packet_bytes(words: Seq<u32>, len: nat) -> Seq<u8> {
    Seq::new(len, |i: int| spec_word_byte(words[i / 4], (i % 4) as usize))
}

/// The reads of the FIFO window of endpoint `channel` that gave `words`.
pub open spec fn fifo_reads(channel: u8, words: Seq<u32>) -> Seq<Access> {
    Seq::new(words.len(), |i: int| Access::Read { reg: Register::Fifo(channel), value: words[i] })
}

/// What a receive buffer holds.
#[derive(Clone, Copy, Debug, PartialEq, Eq, Hash, Structural)]
pub enum EndpointBufferState {
    /// No packet is pending.
    Empty,
    /// A data packet is pending.
    DataOut,
    /// A SETUP packet is pending.
    DataSetup,
}

/// A receive buffer as its users see it.
pub struct BufferView {
    /// The size of the buffer in bytes.
    pub capacity: nat,
    pub state: EndpointBufferState,
    /// The pending packet; empty when none is pending.
    pub packet: Seq<u8>,
}

impl BufferView {
    /// Whether a packet of `byte_count` bytes can be taken in.
    pub open spec fn accepts(self, byte_count: nat, is_setup: bool) -> bool {
        &&& self.state is Empty
        &&& byte_count <= self.capacity
        &&& is_setup ==> byte_count == 8
    }

    /// What an attempt to take in a packet returns: a buffer that still
    /// holds a packet lets the new one pass by without complaint, and an
    /// empty buffer refuses the packets that it does not accept.
    pub open spec fn fill_result(self, byte_count: nat, is_setup: bool) -> Result<(), UsbError> {
        if self.state is Empty && !self.accepts(byte_count, is_setup) {
            Err(UsbError::BufferOverflow)
        } else {
            Ok(())
        }
    }

    /// The buffer after it took in the packet that `words` carry.
    pub open spec fn filled(self, words: Seq<u32>, byte_count: nat, is_setup: bool) -> BufferView {
        BufferView {
            capacity: self.capacity,
            state: if is_setup {
                EndpointBufferState::DataSetup
            } else {
                EndpointBufferState::DataOut
            },
            packet: packet_bytes(words, byte_count),
        }
    }

    /// The buffer after its packet was taken out.
    pub open spec fn emptied(self) -> BufferView {
        BufferView { capacity: self.capacity, state: EndpointBufferState::Empty, packet: Seq::empty() }
    }

    /// What reading into a destination of `room` bytes returns: the length
    /// of the pending packet, `WouldBlock` when none is pending, and
    /// `BufferOverflow` when the destination is shorter than the packet.
    pub open spec fn read_result(self, room: nat) -> Result<usize, UsbError> {
        if self.state is Empty {
            Err(UsbError::WouldBlock)
        } else if room < self.packet.len() {
            Err(UsbError::BufferOverflow)
        } else {
            Ok(self.packet.len() as usize)
        }
    }

    /// The buffer after reading into a destination of `room` bytes: empty
    /// after a read that succeeds, unchanged after one that fails.
    pub open spec fn after_read(self, room: nat) -> BufferView {
        if self.read_result(room) is Ok {
            self.emptied()
        } else {
            self
        }
    }

    /// The destination after reading into it: a read that succeeds puts the
    /// packet at its front and leaves the rest, one that fails leaves it all.
    pub open spec fn read_into(self, dest: Seq<u8>) -> Seq<u8> {
        if self.read_result(dest.len()) is Ok {
            self.packet + dest.skip(self.packet.len() as int)
        } else {
            dest
        }
    }
}

/// A packet that a buffer took in comes out of the next read as it went in:
/// the read returns its length, puts its bytes at the front of the
/// destination in the order of arrival, and leaves the buffer empty.
pub proof fn lemma_fill_then_read(
    buffer: BufferView,
    words: Seq<u32>,
    byte_count: nat,
    is_setup: bool,
    dest: Seq<u8>,
)
    requires
        buffer.accepts(byte_count, is_setup),
        byte_count <= dest.len(),
        byte_count <= usize::MAX,
    ensures
        buffer.filled(words, byte_count, is_setup).read_result(dest.len()) == Ok::<
            usize,
            UsbError,
        >(byte_count as usize),
        buffer.filled(words, byte_count, is_setup).read_into(dest) == packet_bytes(
            words,
            byte_count,
        ) + dest.skip(byte_count as int),
        buffer.filled(words, byte_count, is_setup).after_read(dest.len()) == buffer.emptied(),
{
}

/// A buffer that holds a packet takes in no other.
pub proof fn lemma_pending_packet_refuses(buffer: BufferView, byte_count: nat, is_setup: bool)
    requires
        !(buffer.state is Empty),
    ensures
        !buffer.accepts(byte_count, is_setup),
{
}

/// Holds the most recent packet that was copied out of the receive FIFO for
/// one OUT endpoint. At most one packet is held at a time.
pub struct EndpointBuffer {
    words: &'static mut [u32],
    data_size: usize,
    state: EndpointBufferState,
}

impl View for EndpointBuffer {
    type V = BufferView;

    closed spec fn view(&self) -> BufferView {
        BufferView {
            capacity: self.words@.len() * 4,
            state: self.state,
            packet: if self.state is Empty {
                Seq::empty()
            } else {
                packet_bytes(self.words@, self.data_size as nat)
            },
        }
    }
}

impl EndpointBuffer {
    /// A pending packet fits the buffer, and a pending SETUP packet has eight bytes.
    pub closed spec fn wf(&self) -> bool {
        &&& !(self.state is Empty) ==> self.data_size <= self.words@.len() * 4
        &&& self.state is DataSetup ==> self.data_size == 8
    }

    /// What `wf` means for the view.
    pub proof fn lemma_wf_view(&self)
        requires
            self.wf(),
        ensures
            self@.packet.len() <= self@.capacity,
            self@.capacity % 4 == 0,
            self@.state is Empty ==> self@.packet.len() == 0,
            self@.state is DataSetup ==> self@.packet.len() == 8,
    {
    }

    /// The tag of the buffer.
    pub fn state(&self) -> (state: EndpointBufferState)
        ensures
            state == self@.state,
    {
        self.state
    }

    /// The size of the buffer in words.
    pub fn capacity_words(&self) -> (words: usize)
        ensures
            words * 4 == self@.capacity,
    {
        self.words.len()
    }

    /// Takes a packet of `byte_count` bytes out of the receive FIFO through
    /// the window of endpoint `channel`, one word at a time.
    ///
    /// A buffer that still holds a packet is left as it is and nothing is
    /// read. A packet that does not fit, or a SETUP packet that is not eight
    /// bytes long, is refused and nothing is read.
    pub fn fill_from_fifo<P: UsbPeripheral>(
        &mut self,
        regs: &mut UsbRegisters<P>,
        channel: u8,
        byte_count: u16,
        is_setup: bool,
    ) -> (result: Result<(), UsbError>)
        requires
            old(self).wf(),
            channel < MAX_ENDPOINTS,
        ensures
            final(self).wf(),
            result == old(self)@.fill_result(byte_count as nat, is_setup),
            !old(self)@.accepts(byte_count as nat, is_setup) ==> {
                &&& final(self)@ == old(self)@
                &&& final(regs).trace() == old(regs).trace()
            },
            old(self)@.accepts(byte_count as nat, is_setup) ==> exists|words: Seq<u32>|
                {
                    &&& words.len() == words_for(byte_count as nat)
                    &&& final(regs).trace() == old(regs).trace() + #[trigger] fifo_reads(
                        channel,
                        words,
                    )
                    &&& final(self)@ == old(self)@.filled(words, byte_count as nat, is_setup)
                },
    {
        if self.state != EndpointBufferState::Empty {
            return Ok(());
        }
        let count: usize = (byte_count as usize + 3) / 4;
        if count > self.words.len() || (is_setup && byte_count != 8) {
            return Err(UsbError::BufferOverflow);
        }
        let ghost before = regs.trace();
        let mut i: usize = 0;
        while i < count
            invariant
                i <= count <= self.words@.len(),
                self.words@.len() == old(self).words@.len(),
                self.state == old(self).state,
                channel < MAX_ENDPOINTS,
                regs.trace() == before + fifo_reads(channel, self.words@.take(i as int)),
            decreases count - i,
        {
            let word = regs.read(Register::Fifo(channel));
            self.words[i] = word;
            i = i + 1;
        }
        self.data_size = byte_count as usize;
        self.state = if is_setup {
            EndpointBufferState::DataSetup
        } else {
            EndpointBufferState::DataOut
        };
        proof {
            let words = self.words@.take(count as int);
            assert(packet_bytes(self.words@, byte_count as nat) =~= packet_bytes(
                words,
                byte_count as nat,
            ));
        }
        Ok(())
    }

    /// Copies the pending packet to the front of `dest` and empties the buffer.
    ///
    /// Fails with `WouldBlock` when no packet is pending and with
    /// `BufferOverflow` when `dest` is shorter than the packet; the buffer and
    /// `dest` are then left as they were.
    pub fn read_packet(&mut self, dest: &mut [u8]) -> (result: Result<usize, UsbError>)
        requires
            old(self).wf(),
        ensures
            final(self).wf(),
            final(dest)@.len() == old(dest)@.len(),
            result == old(self)@.read_result(old(dest)@.len()),
            final(self)@ == old(self)@.after_read(old(dest)@.len()),
            final(dest)@ == old(self)@.read_into(old(dest)@),
    {
        if self.state == EndpointBufferState::Empty {
            return Err(UsbError::WouldBlock);
        }
        let size = self.data_size;
        if dest.len() < size {
            return Err(UsbError::BufferOverflow);
        }
        let ghost packet = self@.packet;
        let mut i: usize = 0;
        while i < size
            invariant
                i <= size <= dest@.len(),
                size <= self.words@.len() * 4,
                dest@.len() == old(dest)@.len(),
                packet == packet_bytes(self.words@, size as nat),
                dest@ =~= packet.take(i as int) + old(dest)@.skip(i as int),
            decreases size - i,
        {
            dest[i] = word_byte(self.words[i / 4], i % 4);
            i = i + 1;
        }
        self.state = EndpointBufferState::Empty;
        Ok(size)
    }
}

/// Hands out receive buffers from a fixed region of words, front to back.
/// Nothing is ever given back.
pub struct EndpointMemoryAllocator {
    free: &'static mut [u32],
    next_free_offset: usize,
    capacity: usize,
}

impl EndpointMemoryAllocator {
    /// The size of the whole region in words.
    pub closed spec fn capacity_words(&self) -> nat {
        self.capacity as nat
    }

    /// The words handed out so far: the offset of the next free word.
    pub closed spec fn allocated_words(&self) -> nat {
        self.next_free_offset as nat
    }

    /// The words handed out and the words left make up the region.
    pub closed spec fn wf(&self) -> bool {
        self.next_free_offset + self.free@.len() == self.capacity
    }

    /// What `wf` means for the two counts.
    pub proof fn lemma_wf_counts(&self)
        requires
            self.wf(),
        ensures
            self.allocated_words() <= self.capacity_words() <= usize::MAX,
    {
    }

    /// Takes over a region of words. Nothing is allocated yet.
    pub fn new(ep_memory: &'static mut [u32]) -> (arena: EndpointMemoryAllocator)
        ensures
            arena.wf(),
            arena.capacity_words() == old(ep_memory)@.len(),
            arena.allocated_words() == 0,
    {
        let capacity = ep_memory.len();
        EndpointMemoryAllocator { free: ep_memory, next_free_offset: 0, capacity }
    }

    /// Reserves the words that hold `max_packet_size` bytes and returns an
    /// empty buffer made of them, or fails with `OutOfMemory` when fewer
    /// words are left.
    pub fn allocate_rx_buffer(&mut self, max_packet_size: usize) -> (result: Result<
        EndpointBuffer,
        UsbError,
    >)
        requires
            old(self).wf(),
        ensures
            final(self).wf(),
            final(self).capacity_words() == old(self).capacity_words(),
            old(self).allocated_words() + words_for(max_packet_size as nat) <= old(
                self,
            ).capacity_words() ==> {
                &&& result matches Ok(buffer)
                &&& buffer.wf()
                &&& buffer@ == (BufferView {
                    capacity: 4 * words_for(max_packet_size as nat),
                    state: EndpointBufferState::Empty,
                    packet: Seq::empty(),
                })
                &&& final(self).allocated_words() == old(self).allocated_words() + words_for(
                    max_packet_size as nat,
                )
            },
            old(self).allocated_words() + words_for(max_packet_size as nat) > old(
                self,
            ).capacity_words() ==> {
                &&& result matches Err(e)
                &&& e == UsbError::OutOfMemory
                &&& final(self).allocated_words() == old(self).allocated_words()
            },
    {
        let rest: usize = if max_packet_size % 4 == 0 {
            0
        } else {
            1
        };
        let count: usize = max_packet_size / 4 + rest;
        if count > self.free.len() {
            return Err(UsbError::OutOfMemory);
        }
        let mut region: &'static mut [u32] = &mut [];
        core::mem::swap(&mut self.free, &mut region);
        let (words, rest) = region.split_at_mut(count);
        self.free = rest;
        self.next_free_offset = self.next_free_offset + count;
        Ok(EndpointBuffer { words, data_size: 0, state: EndpointBufferState::Empty })
    }

    /// The words handed out for receive buffers so far.
    pub fn total_rx_buffer_size_words(&self) -> (words: usize)
        ensures
            words == self.allocated_words(),
    {
        self.next_free_offset
    }
}

} // verus!
