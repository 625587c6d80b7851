//! The words that the driver builds and takes apart.

use synopsys_usb_otg::bus::{in_mask_bit, usb_config_clear, usb_config_set, GINTMSK_DEVICE_EVENTS};
use synopsys_usb_otg::endpoint::{
    control_size_code, in_control_word, in_transfer_word, out_control_word, pack_word,
};
use synopsys_usb_otg::endpoint_memory::word_byte;
use synopsys_usb_otg::fifo::{
    fifo_depth_words, rx_fifo_slack, tx_fifo_register, tx_fifo_word, MIN_TX_FIFO_WORDS,
};
use synopsys_usb_otg::poll::{decode_rx_status, endpoint_bit, RxStatus};
use synopsys_usb_otg::ral::{any_set, modified, Register, EPINT_ALL};
use synopsys_usb_otg::types::{EndpointAddress, EndpointType, UsbDirection};

#[test]
fn control_size_codes() {
    assert_eq!(control_size_code(64), Some(0b00));
    assert_eq!(control_size_code(32), Some(0b01));
    assert_eq!(control_size_code(16), Some(0b10));
    assert_eq!(control_size_code(8), Some(0b11));
    assert_eq!(control_size_code(0), None);
    assert_eq!(control_size_code(7), None);
    assert_eq!(control_size_code(9), None);
    assert_eq!(control_size_code(63), None);
    assert_eq!(control_size_code(65), None);
    assert_eq!(control_size_code(128), None);
    assert_eq!(control_size_code(u16::MAX), None);
}

#[test]
fn transfer_type_codes() {
    assert_eq!(EndpointType::Control.bits(), 0);
    assert_eq!(EndpointType::Isochronous.bits(), 1);
    assert_eq!(EndpointType::Bulk.bits(), 2);
    assert_eq!(EndpointType::Interrupt.bits(), 3);
}

#[test]
fn in_control_words() {
    assert_eq!(in_control_word(1, EndpointType::Bulk, 64), 0x1848_8040);
    assert_eq!(in_control_word(2, EndpointType::Interrupt, 8), 0x188c_8008);
    assert_eq!(in_control_word(3, EndpointType::Isochronous, 1023), 0x18c4_83ff);
    assert_eq!(in_control_word(15, EndpointType::Control, 0), 0x1bc0_8000);
    assert_eq!(in_control_word(1, EndpointType::Bulk, 0x0800), 0x1848_8000);
    assert_eq!(in_control_word(1, EndpointType::Bulk, 0xffff), 0x1848_87ff);
}

#[test]
fn out_control_words() {
    assert_eq!(out_control_word(EndpointType::Bulk, 64), 0x9408_8040);
    assert_eq!(out_control_word(EndpointType::Interrupt, 8), 0x940c_8008);
    assert_eq!(out_control_word(EndpointType::Isochronous, 512), 0x9404_8200);
    assert_eq!(out_control_word(EndpointType::Control, 0xffff), 0x9400_87ff);
}

#[test]
fn transfer_size_words() {
    assert_eq!(in_transfer_word(0, false), 0x0008_0000);
    assert_eq!(in_transfer_word(64, false), 0x0008_0040);
    assert_eq!(in_transfer_word(64, true), 0x2008_0040);
    assert_eq!(in_transfer_word(1023, true), 0x2008_03ff);
}

#[test]
fn words_are_packed_low_byte_first() {
    assert_eq!(pack_word(&[0x11, 0x22, 0x33, 0x44], 0), 0x4433_2211);
    assert_eq!(pack_word(&[0x11, 0x22, 0x33, 0x44, 0x55], 0), 0x4433_2211);
    assert_eq!(pack_word(&[0x11, 0x22, 0x33, 0x44, 0x55], 1), 0x0000_0055);
    assert_eq!(pack_word(&[0x11, 0x22, 0x33, 0x44, 0x55, 0x66], 1), 0x0000_6655);
    assert_eq!(pack_word(&[0x11, 0x22, 0x33, 0x44, 0x55, 0x66, 0x77], 1), 0x0077_6655);
    assert_eq!(pack_word(&[0xff], 0), 0x0000_00ff);
    assert_eq!(pack_word(&[0, 0, 0, 0x80], 0), 0x8000_0000);
}

#[test]
fn bytes_are_taken_low_byte_first() {
    assert_eq!(word_byte(0xaabb_ccdd, 0), 0xdd);
    assert_eq!(word_byte(0xaabb_ccdd, 1), 0xcc);
    assert_eq!(word_byte(0xaabb_ccdd, 2), 0xbb);
    assert_eq!(word_byte(0xaabb_ccdd, 3), 0xaa);
    assert_eq!(word_byte(0, 3), 0);
    assert_eq!(word_byte(0xffff_ffff, 2), 0xff);
}

#[test]
fn packing_and_taking_bytes_are_inverse() {
    let data = [0x01u8, 0x80, 0xfe, 0x7f, 0x00, 0xff, 0x10];
    for i in 0..data.len() {
        assert_eq!(word_byte(pack_word(&data, i / 4), i % 4), data[i]);
    }
    assert_eq!(word_byte(pack_word(&data, 1), 3), 0);
}

#[test]
fn receive_status_fields() {
    assert_eq!(
        decode_rx_status(1 | (8 << 4) | (2 << 17)),
        RxStatus { endpoint: 1, byte_count: 8, packet_status: 2 }
    );
    assert_eq!(
        decode_rx_status(0xffff_ffff),
        RxStatus { endpoint: 15, byte_count: 0x7ff, packet_status: 15 }
    );
    assert_eq!(
        decode_rx_status(0x000c_0080),
        RxStatus { endpoint: 0, byte_count: 8, packet_status: 6 }
    );
    assert_eq!(
        decode_rx_status(0xffe1_8000),
        RxStatus { endpoint: 0, byte_count: 0, packet_status: 0 }
    );
    assert_eq!(decode_rx_status(0), RxStatus { endpoint: 0, byte_count: 0, packet_status: 0 });
}

#[test]
fn receive_status_kinds() {
    let status = |packet_status| RxStatus { endpoint: 0, byte_count: 0, packet_status };
    assert!(status(2).carries_data() && !status(2).is_setup() && !status(2).is_completion());
    assert!(status(6).carries_data() && status(6).is_setup() && !status(6).is_completion());
    assert!(!status(3).carries_data() && !status(3).is_setup() && status(3).is_completion());
    assert!(!status(4).carries_data() && !status(4).is_setup() && status(4).is_completion());
    for other in [0u8, 1, 5, 7, 8, 15] {
        assert!(!status(other).carries_data());
        assert!(!status(other).is_setup());
        assert!(!status(other).is_completion());
    }
}

#[test]
fn endpoint_bits() {
    assert_eq!(endpoint_bit(0), 0x0001);
    assert_eq!(endpoint_bit(1), 0x0002);
    assert_eq!(endpoint_bit(3), 0x0008);
    assert_eq!(endpoint_bit(15), 0x8000);
    assert_eq!(in_mask_bit(0), 0x0000_0001);
    assert_eq!(in_mask_bit(3), 0x0000_0008);
    assert_eq!(in_mask_bit(31), 0x8000_0000);
}

#[test]
fn fifo_constants_by_speed() {
    assert_eq!(rx_fifo_slack(false), 20);
    assert_eq!(rx_fifo_slack(true), 30);
    assert_eq!(fifo_depth_words(false), 320);
    assert_eq!(fifo_depth_words(true), 1024);
    assert_eq!(MIN_TX_FIFO_WORDS, 16);
}

#[test]
fn transmit_fifo_words_and_registers() {
    assert_eq!(tx_fifo_word(16, 36), 0x0010_0024);
    assert_eq!(tx_fifo_word(256, 1024 - 256), 0x0100_0300);
    assert_eq!(tx_fifo_word(0, 0), 0);
    assert_eq!(tx_fifo_register(0), Register::Dieptxf0);
    assert_eq!(tx_fifo_register(1), Register::Dieptxf(1));
    assert_eq!(tx_fifo_register(3), Register::Dieptxf(3));
}

#[test]
fn usb_configuration_by_speed() {
    assert_eq!(usb_config_clear(false), 0x4000_3d00);
    assert_eq!(usb_config_set(false), 0x4000_1800);
    assert_eq!(usb_config_clear(true), 0x4000_3d47);
    assert_eq!(usb_config_set(true), 0x4000_2441);
    assert_eq!(GINTMSK_DEVICE_EVENTS, 0x8004_3810);
}

#[test]
fn bit_tests() {
    assert!(any_set(0x8000_0000, 0x8000_0000));
    assert!(any_set(0x0000_0030, 0x0000_0010));
    assert!(!any_set(0x7fff_ffff, 0x8000_0000));
    assert!(!any_set(0xffff_ffff, 0));
    assert!(!any_set(0, 0xffff_ffff));
}

#[test]
fn read_modify_write_clears_before_it_sets() {
    assert_eq!(modified(0xf0, 0x30, 0x01), 0xc1);
    assert_eq!(modified(0xffff_ffff, 0x0000_07f0, 0x0000_0050), 0xffff_f85f);
    assert_eq!(modified(0x0000_8040, 0x0020_0000, 0x0020_0000), 0x0020_8040);
    assert_eq!(modified(0x0020_8040, 0x0020_0000, 0), 0x0000_8040);
    assert_eq!(modified(0x1234_5678, 0, 0), 0x1234_5678);
    assert_eq!(modified(0x1234_5678, 0xffff_ffff, 0), 0);
    assert_eq!(modified(0, 0xff, 0xff), 0xff);
}

#[test]
fn clearing_every_interrupt_takes_all_ones() {
    assert_eq!(EPINT_ALL, 0xffff_ffff);
}

#[test]
fn address_parts() {
    let address = EndpointAddress::from_parts(3, UsbDirection::In);
    assert_eq!(address.number(), 3);
    assert_eq!(address.direction(), UsbDirection::In);
    assert_eq!(address, EndpointAddress { number: 3, direction: UsbDirection::In });
    assert_ne!(address, EndpointAddress::from_parts(3, UsbDirection::Out));
    assert_ne!(address, EndpointAddress::from_parts(2, UsbDirection::In));
}
