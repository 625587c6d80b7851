//! Single endpoint slots and buffers over a recording register file.

use std::collections::{HashMap, VecDeque};
use std::sync::{Arc, Mutex};

use synopsys_usb_otg::endpoint::SynopsysEndpoint;
use synopsys_usb_otg::endpoint_memory::{EndpointBufferState, EndpointMemoryAllocator};
use synopsys_usb_otg::ral::{Register, UsbRegisters};
use synopsys_usb_otg::types::{
    EndpointAddress, EndpointConfig, EndpointType, UsbDirection, UsbError,
};
use synopsys_usb_otg::UsbPeripheral;

#[derive(Clone, Debug, PartialEq)]
enum Op {
    PowerOn,
    Read(Register),
    Write(Register, u32),
    Wait(Register, u32, u32),
}

#[derive(Default)]
struct Board {
    regs: HashMap<Register, u32>,
    fifo: VecDeque<u32>,
    ops: Vec<Op>,
}

#[derive(Clone, Default)]
struct Recorder(Arc<Mutex<Board>>);

impl Recorder {
    fn board(&self) -> std::sync::MutexGuard<'_, Board> {
        self.0.lock().unwrap()
    }

    fn set(&self, reg: Register, value: u32) {
        self.board().regs.insert(reg, value);
    }

    fn ops(&self) -> Vec<Op> {
        self.board().ops.clone()
    }
}

impl UsbPeripheral for Recorder {
    const HIGH_SPEED: bool = false;

    fn enable(&mut self) {
        self.board().ops.push(Op::PowerOn);
    }

    fn read(&mut self, reg: Register) -> u32 {
        let mut board = self.board();
        board.ops.push(Op::Read(reg));
        match reg {
            Register::Fifo(_) => board.fifo.pop_front().unwrap_or(0),
            _ => board.regs.get(&reg).copied().unwrap_or(0),
        }
    }

    fn write(&mut self, reg: Register, value: u32) {
        let mut board = self.board();
        board.ops.push(Op::Write(reg, value));
        board.regs.insert(reg, value);
    }

    fn wait_for(&mut self, reg: Register, mask: u32, value: u32) {
        self.board().ops.push(Op::Wait(reg, mask, value));
    }
}

fn memory(words: usize) -> &'static mut [u32] {
    Box::leak(vec![0u32; words].into_boxed_slice())
}

fn config(ep_type: EndpointType, max_packet_size: u16) -> EndpointConfig {
    EndpointConfig { number: None, ep_type, max_packet_size, interval: 7, is_audio_streaming: false }
}

fn in_slot(number: u8, ep_type: EndpointType, max_packet_size: u16) -> SynopsysEndpoint {
    let mut slot = SynopsysEndpoint::new(EndpointAddress::from_parts(number, UsbDirection::In));
    slot.initialize(UsbDirection::In, &config(ep_type, max_packet_size), None);
    slot
}

fn out_slot(number: u8, ep_type: EndpointType, max_packet_size: u16) -> SynopsysEndpoint {
    let mut arena = EndpointMemoryAllocator::new(memory(512));
    let buffer = arena.allocate_rx_buffer(max_packet_size as usize).unwrap();
    let mut slot = SynopsysEndpoint::new(EndpointAddress::from_parts(number, UsbDirection::Out));
    slot.initialize(UsbDirection::Out, &config(ep_type, max_packet_size), Some(buffer));
    slot
}

#[test]
fn register_file_passes_accesses_on() {
    let recorder = Recorder::default();
    let mut regs = UsbRegisters::new(recorder.clone());
    assert!(!regs.is_high_speed());
    recorder.set(Register::Gahbcfg, 0xf0);
    regs.modify(Register::Gahbcfg, 0x30, 0x01);
    assert_eq!(regs.read(Register::Gahbcfg), 0xc1);
    regs.write(Register::Dcfg, 0x1234);
    regs.wait_for(Register::Grstctl, 0x10, 0);
    regs.power_on();
    assert_eq!(
        recorder.ops(),
        vec![
            Op::Read(Register::Gahbcfg),
            Op::Write(Register::Gahbcfg, 0xc1),
            Op::Read(Register::Gahbcfg),
            Op::Write(Register::Dcfg, 0x1234),
            Op::Wait(Register::Grstctl, 0x10, 0),
            Op::PowerOn,
        ]
    );
    let back = regs.free();
    assert!(Arc::ptr_eq(&back.0, &recorder.0));
}

#[test]
fn initialize_freezes_the_request() {
    let slot = out_slot(2, EndpointType::Interrupt, 10);
    assert!(slot.is_initialized());
    assert_eq!(slot.address(), EndpointAddress::from_parts(2, UsbDirection::Out));
    assert_eq!(slot.ep_type(), EndpointType::Interrupt);
    assert_eq!(slot.max_packet_size(), 10);
    assert_eq!(slot.interval(), 7);
    assert_eq!(slot.descriptor().audio_streaming_extension, None);
    assert_eq!(slot.fifo_size_words(), 3);
    assert_eq!(slot.buffer_state(), EndpointBufferState::Empty);
}

#[test]
fn control_in_is_enabled_by_size_code() {
    for (size, code) in [(64u16, 0u32), (32, 1), (16, 2), (8, 3)] {
        let recorder = Recorder::default();
        let mut regs = UsbRegisters::new(recorder.clone());
        let slot = in_slot(0, EndpointType::Control, size);
        assert!(slot.can_enable());
        slot.enable(&mut regs);
        assert_eq!(
            recorder.ops(),
            vec![
                Op::Write(Register::Diepctl(0), 0x0800_0000 | code),
                Op::Write(Register::Dieptsiz(0), size as u32),
            ]
        );
    }
}

#[test]
fn control_out_is_enabled_by_size_code() {
    for (size, code) in [(64u16, 0u32), (32, 1), (16, 2), (8, 3)] {
        let recorder = Recorder::default();
        recorder.set(Register::Doepctl(0), 0x0020_8003);
        let mut regs = UsbRegisters::new(recorder.clone());
        let slot = out_slot(0, EndpointType::Control, size);
        assert!(slot.can_enable());
        slot.enable(&mut regs);
        assert_eq!(
            recorder.ops(),
            vec![
                Op::Write(Register::Doeptsiz(0), 0x2008_0000 | size as u32),
                Op::Read(Register::Doepctl(0)),
                Op::Write(Register::Doepctl(0), 0x8420_8000 | code),
            ]
        );
    }
}

#[test]
fn control_endpoint_of_other_size_cannot_be_enabled() {
    for size in [0u16, 1, 7, 9, 24, 63, 65, 128, 512] {
        assert!(!in_slot(0, EndpointType::Control, size).can_enable());
        assert!(!out_slot(0, EndpointType::Control, size).can_enable());
        assert!(in_slot(1, EndpointType::Bulk, size).can_enable());
    }
    let free = SynopsysEndpoint::new(EndpointAddress::from_parts(0, UsbDirection::In));
    assert!(!free.can_enable());
    let free = SynopsysEndpoint::new(EndpointAddress::from_parts(2, UsbDirection::Out));
    assert!(free.can_enable());
}

#[test]
fn other_endpoints_are_enabled_with_one_word() {
    let recorder = Recorder::default();
    let mut regs = UsbRegisters::new(recorder.clone());
    in_slot(2, EndpointType::Interrupt, 8).enable(&mut regs);
    out_slot(3, EndpointType::Bulk, 64).enable(&mut regs);
    SynopsysEndpoint::new(EndpointAddress::from_parts(1, UsbDirection::In)).enable(&mut regs);
    assert_eq!(
        recorder.ops(),
        vec![
            Op::Write(Register::Diepctl(2), 0x188c_8008),
            Op::Write(Register::Doepctl(3), 0x9408_8040),
            Op::Write(Register::Diepctl(1), 0x1840_8000),
        ]
    );
}

#[test]
fn disable_stops_an_enabled_endpoint() {
    let recorder = Recorder::default();
    recorder.set(Register::Diepctl(1), 0x8000_8040);
    let mut regs = UsbRegisters::new(recorder.clone());
    in_slot(1, EndpointType::Bulk, 64).disable(&mut regs);
    assert_eq!(
        recorder.ops(),
        vec![
            Op::Read(Register::Diepctl(1)),
            Op::Write(Register::Diepctl(1), 0x8000_0040),
            Op::Read(Register::Diepctl(1)),
            Op::Read(Register::Diepctl(1)),
            Op::Write(Register::Diepctl(1), 0xc000_0040),
            Op::Write(Register::Diepint(1), 0xffff_ffff),
        ]
    );
}

#[test]
fn disable_leaves_an_idle_endpoint_and_endpoint_zero() {
    let recorder = Recorder::default();
    recorder.set(Register::Doepctl(2), 0x0000_8040);
    recorder.set(Register::Doepctl(0), 0x8000_8000);
    let mut regs = UsbRegisters::new(recorder.clone());
    out_slot(2, EndpointType::Bulk, 64).disable(&mut regs);
    out_slot(0, EndpointType::Control, 64).disable(&mut regs);
    assert_eq!(
        recorder.ops(),
        vec![
            Op::Read(Register::Doepctl(2)),
            Op::Write(Register::Doepctl(2), 0x0000_0040),
            Op::Read(Register::Doepctl(2)),
            Op::Write(Register::Doepint(2), 0xffff_ffff),
            Op::Read(Register::Doepctl(0)),
            Op::Write(Register::Doepctl(0), 0x8000_0000),
            Op::Read(Register::Doepctl(0)),
            Op::Write(Register::Doepint(0), 0xffff_ffff),
        ]
    );
}

#[test]
fn stall_is_written_only_when_it_changes() {
    let recorder = Recorder::default();
    recorder.set(Register::Doepctl(1), 0x0000_8040);
    let mut regs = UsbRegisters::new(recorder.clone());
    let slot = out_slot(1, EndpointType::Bulk, 64);
    assert!(!slot.is_stalled(&mut regs));
    slot.set_stalled(&mut regs, false);
    slot.set_stalled(&mut regs, true);
    slot.set_stalled(&mut regs, true);
    assert!(slot.is_stalled(&mut regs));
    let writes: Vec<Op> =
        recorder.ops().into_iter().filter(|op| matches!(op, Op::Write(..))).collect();
    assert_eq!(writes, vec![Op::Write(Register::Doepctl(1), 0x0020_8040)]);
    assert_eq!(recorder.ops().len(), 7);
}

#[test]
fn stall_of_a_free_slot_does_nothing() {
    let recorder = Recorder::default();
    let mut regs = UsbRegisters::new(recorder.clone());
    let slot = SynopsysEndpoint::new(EndpointAddress::from_parts(1, UsbDirection::In));
    slot.set_stalled(&mut regs, true);
    assert!(recorder.ops().is_empty());
}

#[test]
fn slot_reads_what_it_received() {
    let recorder = Recorder::default();
    recorder.board().fifo.extend([0x0403_0201, 0xffff_0605]);
    let mut regs = UsbRegisters::new(recorder.clone());
    let mut slot = out_slot(1, EndpointType::Bulk, 64);
    slot.receive(&mut regs, 6, false);
    assert_eq!(slot.buffer_state(), EndpointBufferState::DataOut);
    assert_eq!(recorder.ops(), vec![Op::Read(Register::Fifo(1)), Op::Read(Register::Fifo(1))]);
    let mut data = [0u8; 6];
    assert_eq!(slot.read(&mut data), Ok(6));
    assert_eq!(data, [1, 2, 3, 4, 5, 6]);
    assert_eq!(slot.buffer_state(), EndpointBufferState::Empty);
    assert_eq!(slot.read(&mut data), Err(UsbError::WouldBlock));
}

#[test]
fn slot_without_buffer_receives_nothing() {
    let recorder = Recorder::default();
    let mut regs = UsbRegisters::new(recorder.clone());
    let mut slot = in_slot(1, EndpointType::Bulk, 64);
    slot.receive(&mut regs, 4, false);
    let mut free = SynopsysEndpoint::new(EndpointAddress::from_parts(1, UsbDirection::Out));
    free.receive(&mut regs, 4, false);
    assert!(recorder.ops().is_empty());
    let mut data = [0u8; 4];
    assert_eq!(slot.read(&mut data), Err(UsbError::InvalidEndpoint));
    assert_eq!(free.read(&mut data), Err(UsbError::InvalidEndpoint));
}

#[test]
fn slot_write_goes_by_direction_and_state() {
    let recorder = Recorder::default();
    let mut regs = UsbRegisters::new(recorder.clone());
    let free = SynopsysEndpoint::new(EndpointAddress::from_parts(1, UsbDirection::In));
    assert_eq!(free.write(&mut regs, &[1]), Err(UsbError::InvalidEndpoint));
    assert_eq!(
        out_slot(1, EndpointType::Bulk, 64).write(&mut regs, &[1]),
        Err(UsbError::InvalidEndpoint)
    );
    assert!(recorder.ops().is_empty());
    recorder.set(Register::Diepctl(1), 0x8000_0000);
    let slot = in_slot(1, EndpointType::Bulk, 4);
    assert_eq!(slot.write(&mut regs, &[1, 2, 3, 4, 5]), Err(UsbError::WouldBlock));
    recorder.set(Register::Diepctl(1), 0x7fff_ffff);
    assert_eq!(slot.write(&mut regs, &[1, 2, 3, 4, 5]), Err(UsbError::BufferOverflow));
    assert_eq!(slot.write(&mut regs, &[1, 2, 3, 4]), Err(UsbError::WouldBlock));
    recorder.set(Register::Dtxfsts(1), 1);
    assert_eq!(slot.write(&mut regs, &[1, 2, 3, 4]), Ok(()));
}

#[test]
fn buffer_takes_one_packet_at_a_time() {
    let recorder = Recorder::default();
    recorder.board().fifo.extend([0x4433_2211, 0x8877_6655, 0xdead_beef]);
    let mut regs = UsbRegisters::new(recorder.clone());
    let mut arena = EndpointMemoryAllocator::new(memory(4));
    let mut buffer = arena.allocate_rx_buffer(8).unwrap();
    assert_eq!(buffer.capacity_words(), 2);
    assert_eq!(buffer.fill_from_fifo(&mut regs, 3, 5, false), Ok(()));
    assert_eq!(buffer.state(), EndpointBufferState::DataOut);
    assert_eq!(recorder.ops(), vec![Op::Read(Register::Fifo(3)), Op::Read(Register::Fifo(3))]);
    assert_eq!(buffer.fill_from_fifo(&mut regs, 3, 4, false), Ok(()));
    assert_eq!(buffer.fill_from_fifo(&mut regs, 3, 8, true), Ok(()));
    assert_eq!(recorder.ops().len(), 2);
    assert_eq!(buffer.state(), EndpointBufferState::DataOut);
    let mut small = [0u8; 4];
    assert_eq!(buffer.read_packet(&mut small), Err(UsbError::BufferOverflow));
    assert_eq!(buffer.state(), EndpointBufferState::DataOut);
    let mut data = [0xeeu8; 7];
    assert_eq!(buffer.read_packet(&mut data), Ok(5));
    assert_eq!(data, [0x11, 0x22, 0x33, 0x44, 0x55, 0xee, 0xee]);
    assert_eq!(buffer.state(), EndpointBufferState::Empty);
    assert_eq!(buffer.read_packet(&mut data), Err(UsbError::WouldBlock));
    assert_eq!(data, [0x11, 0x22, 0x33, 0x44, 0x55, 0xee, 0xee]);
}

#[test]
fn buffer_refuses_what_it_cannot_hold() {
    let recorder = Recorder::default();
    let mut regs = UsbRegisters::new(recorder.clone());
    let mut arena = EndpointMemoryAllocator::new(memory(4));
    let mut buffer = arena.allocate_rx_buffer(10).unwrap();
    assert_eq!(buffer.capacity_words(), 3);
    assert_eq!(buffer.fill_from_fifo(&mut regs, 0, 13, false), Err(UsbError::BufferOverflow));
    assert_eq!(buffer.fill_from_fifo(&mut regs, 0, 7, true), Err(UsbError::BufferOverflow));
    assert_eq!(buffer.fill_from_fifo(&mut regs, 0, 9, true), Err(UsbError::BufferOverflow));
    assert_eq!(buffer.state(), EndpointBufferState::Empty);
    assert!(recorder.ops().is_empty());
    assert_eq!(buffer.fill_from_fifo(&mut regs, 0, 12, false), Ok(()));
    assert_eq!(buffer.state(), EndpointBufferState::DataOut);
    let mut data = [0u8; 12];
    assert_eq!(buffer.read_packet(&mut data), Ok(12));
    assert_eq!(buffer.fill_from_fifo(&mut regs, 0, 8, true), Ok(()));
    assert_eq!(buffer.state(), EndpointBufferState::DataSetup);
}

#[test]
fn empty_packet_is_a_packet() {
    let recorder = Recorder::default();
    let mut regs = UsbRegisters::new(recorder.clone());
    let mut arena = EndpointMemoryAllocator::new(memory(0));
    let mut buffer = arena.allocate_rx_buffer(0).unwrap();
    assert_eq!(buffer.fill_from_fifo(&mut regs, 1, 0, false), Ok(()));
    assert!(recorder.ops().is_empty());
    assert_eq!(buffer.state(), EndpointBufferState::DataOut);
    let mut nothing = [0u8; 0];
    assert_eq!(buffer.read_packet(&mut nothing), Ok(0));
    assert_eq!(buffer.state(), EndpointBufferState::Empty);
}
