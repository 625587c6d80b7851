//! The driver on a high-speed part.

use std::collections::HashMap;
use std::sync::{Arc, Mutex};

use synopsys_usb_otg::UsbBus;
use synopsys_usb_otg::ral::Register;
use synopsys_usb_otg::types::{EndpointAddress, EndpointConfig, EndpointType, UsbDirection};
use synopsys_usb_otg::UsbPeripheral;

#[derive(Default)]
struct Board {
    regs: HashMap<Register, u32>,
    pushed: Vec<u32>,
}

#[derive(Clone, Default)]
struct FastPart(Arc<Mutex<Board>>);

impl FastPart {
    fn get(&self, reg: Register) -> u32 {
        self.0.lock().unwrap().regs.get(&reg).copied().unwrap_or(0)
    }
}

impl UsbPeripheral for FastPart {
    const HIGH_SPEED: bool = true;

    fn enable(&mut self) {}

    fn read(&mut self, reg: Register) -> u32 {
        self.get(reg)
    }

    fn write(&mut self, reg: Register, value: u32) {
        let mut board = self.0.lock().unwrap();
        if let Register::Fifo(_) = reg {
            board.pushed.push(value);
        } else {
            board.regs.insert(reg, value);
        }
    }

    fn wait_for(&mut self, reg: Register, mask: u32, value: u32) {
        let mut board = self.0.lock().unwrap();
        let now = board.regs.get(&reg).copied().unwrap_or(0);
        board.regs.insert(reg, (now & !mask) | value);
    }
}

fn memory(words: usize) -> &'static mut [u32] {
    Box::leak(vec![0u32; words].into_boxed_slice())
}

fn config(number: Option<u8>, ep_type: EndpointType, max_packet_size: u16) -> EndpointConfig {
    EndpointConfig { number, ep_type, max_packet_size, interval: 0, is_audio_streaming: false }
}

#[test]
fn high_speed_usb_configuration() {
    let part = FastPart::default();
    part.0.lock().unwrap().regs.insert(Register::Gusbcfg, 0x0000_1507);
    let mut bus = UsbBus::new(part.clone(), memory(0));
    bus.enable();
    assert_eq!(part.get(Register::Gusbcfg), 0x4000_2441);
    assert_eq!(part.get(Register::Dcfg) & 3, 3);
}

#[test]
fn high_speed_partition_has_more_slack_and_depth() {
    let part = FastPart::default();
    let mut bus = UsbBus::new(part.clone(), memory(128));
    assert!(bus.alloc_in(&config(Some(0), EndpointType::Control, 64)).is_ok());
    assert!(bus.alloc_out(&config(Some(0), EndpointType::Control, 64)).is_ok());
    assert!(bus.alloc_in(&config(None, EndpointType::Bulk, 512)).is_ok());
    assert!(bus.alloc_out(&config(None, EndpointType::Bulk, 256)).is_ok());
    assert!(bus.alloc_in(&config(None, EndpointType::Isochronous, 1024)).is_ok());
    assert!(bus.can_configure());
    bus.configure_all();
    assert_eq!(part.get(Register::Grxfsiz), 16 + 64 + 30);
    assert_eq!(part.get(Register::Dieptxf0), 0x0010_006e);
    assert_eq!(part.get(Register::Dieptxf(1)), 0x0080_007e);
    assert_eq!(part.get(Register::Dieptxf(2)), 0x0100_00fe);
    assert_eq!(part.get(Register::Dieptxf(3)), 0x0010_01fe);
    assert_eq!(0x1fe + 0x10, 526);
    assert!(bus.alloc_in(&config(None, EndpointType::Isochronous, 1023)).is_ok());
    assert!(bus.can_configure());
    bus.configure_all();
    assert_eq!(part.get(Register::Dieptxf(3)), 0x0100_01fe);
}

#[test]
fn high_speed_partition_can_be_too_large() {
    let part = FastPart::default();
    let mut bus = UsbBus::new(part, memory(0));
    assert!(bus.alloc_in(&config(None, EndpointType::Isochronous, 1024)).is_ok());
    assert!(bus.alloc_in(&config(None, EndpointType::Isochronous, 1024)).is_ok());
    assert!(bus.can_configure());
    assert!(bus.alloc_in(&config(None, EndpointType::Isochronous, 1864)).is_ok());
    assert!(bus.can_configure());
    assert!(bus.alloc_in(&config(Some(0), EndpointType::Control, 68)).is_ok());
    assert!(!bus.can_configure());
}

#[test]
fn high_speed_write_counts_packets_per_frame() {
    let part = FastPart::default();
    let mut bus = UsbBus::new(part.clone(), memory(0));
    let ep = bus.alloc_in(&config(None, EndpointType::Bulk, 512)).unwrap();
    assert_eq!(ep, EndpointAddress::from_parts(1, UsbDirection::In));
    part.0.lock().unwrap().regs.insert(Register::Dtxfsts(1), 128);
    assert_eq!(bus.write(ep, &[0xa5; 6]), Ok(()));
    assert_eq!(part.get(Register::Dieptsiz(1)), 0x2008_0006);
    assert_eq!(part.0.lock().unwrap().pushed, vec![0xa5a5_a5a5, 0x0000_a5a5]);
}
