use libusb1_sys::constants::{LIBUSB_TRANSFER_COMPLETED, LIBUSB_TRANSFER_ERROR};
use spca561::endpoint::{
    packet_bytes, pick_endpoint, Chosen, Endpoint, EndpointError, Flow, TransferKind,
};
use spca561::frame::FrameState;
use spca561::iso::{fits, plan_transfer, xfer_cb, PacketDesc, NUM_TRANSFERS, PKTS_PER_XFER};

fn desc(length: u32, actual_length: u32, status: i32) -> PacketDesc {
    PacketDesc { length, actual_length, status }
}

#[test]
fn packets_sit_in_their_slots() {
    // Slots of 20 bytes; the first is not filled, the second failed, the third is empty.
    let mut buffer = vec![0xeeu8; 80];
    for b in &mut buffer[0..18] {
        *b = 0;
    }
    buffer[17] = 42;
    buffer[60] = 5;
    buffer[61] = 43;
    buffer[62] = 44;
    let descs = [
        desc(20, 18, LIBUSB_TRANSFER_COMPLETED),
        desc(20, 20, LIBUSB_TRANSFER_ERROR),
        desc(20, 0, LIBUSB_TRANSFER_COMPLETED),
        desc(20, 3, LIBUSB_TRANSFER_COMPLETED),
    ];
    let mut s = FrameState::new();
    assert!(fits(buffer.len(), &descs));
    assert_eq!(xfer_cb(&mut s, &buffer, &descs), 0);
    assert!(s.valid);
    assert_eq!(s.pos, 3);
    assert_eq!(&s.buf[..4], &[42, 43, 44, 0]);
}

#[test]
fn first_slot_decides_the_spacing() {
    let mut buffer = vec![0u8; 60];
    buffer[17] = 1;
    buffer[18] = 9;
    buffer[19] = 2;
    buffer[30] = 9;
    buffer[31] = 3;
    let descs = [desc(18, 18, 0), desc(30, 2, 0)];
    let mut s = FrameState::new();
    assert_eq!(xfer_cb(&mut s, &buffer, &descs), 0);
    assert_eq!(&s.buf[..3], &[1, 2, 0]);
}

#[test]
fn a_frame_may_span_transfers() {
    let mut one = vec![0u8; 18];
    one[17] = 11;
    let two = [4u8, 12, 13];
    let mut s = FrameState::new();
    xfer_cb(&mut s, &one, &[desc(18, 18, 0)]);
    xfer_cb(&mut s, &two, &[desc(3, 3, 0)]);
    assert_eq!(s.pos, 3);
    assert_eq!(&s.buf[..4], &[11, 12, 13, 0]);
}

#[test]
fn only_completed_packets_count() {
    for status in [1, 2, 3, 4, 5, 6, -1] {
        let mut s = FrameState::new();
        let buffer = [0u8; 17];
        assert_eq!(xfer_cb(&mut s, &buffer, &[desc(17, 17, status)]), 0);
        assert!(!s.valid);
    }
    let mut s = FrameState::new();
    xfer_cb(&mut s, &[0u8; 17], &[desc(17, 17, LIBUSB_TRANSFER_COMPLETED)]);
    assert!(s.valid);
}

#[test]
fn empty_transfers_change_nothing() {
    let mut s = FrameState::new();
    assert_eq!(xfer_cb(&mut s, &[], &[]), 0);
    assert_eq!(xfer_cb(&mut s, &[0; 40], &[desc(20, 0, 0), desc(20, 20, 1)]), 0);
    assert_eq!((s.pos, s.valid, s.seq), (0, false, 0));
}

#[test]
fn compressed_starts_are_counted() {
    let mut buffer = vec![0u8; 60];
    buffer[2] = 0x10;
    buffer[42] = 0x10;
    let descs = [desc(20, 20, 0), desc(20, 20, 0), desc(20, 3, 0)];
    let mut s = FrameState::new();
    assert_eq!(xfer_cb(&mut s, &buffer, &descs), 2);
    assert!(!s.valid);
}

#[test]
fn bounds_are_checked() {
    assert!(fits(0, &[]));
    assert!(fits(40, &[desc(20, 20, 0), desc(20, 20, 0)]));
    assert!(!fits(39, &[desc(20, 20, 0), desc(20, 20, 0)]));
    // Packets without data do not matter.
    assert!(fits(20, &[desc(20, 20, 0), desc(20, 20, 1), desc(20, 0, 0)]));
    assert!(!fits(20, &[desc(u32::MAX, 1, 0), desc(1, u32::MAX, 0)]));
}

#[test]
fn transfers_are_planned_for_the_packet_size() {
    let plan = plan_transfer(1023);
    assert_eq!(plan.buffer_len, 8184);
    assert_eq!(plan.length, 8184);
    assert_eq!(plan.num_iso_packets, 8);
    assert_eq!(plan.packet_length, 1023);
    let descs: Vec<PacketDesc> =
        (0..PKTS_PER_XFER).map(|_| desc(plan.packet_length, plan.packet_length, 0)).collect();
    assert!(fits(plan.buffer_len, &descs));
    assert!(!fits(plan.buffer_len - 1, &descs));
    assert_eq!(NUM_TRANSFERS * PKTS_PER_XFER, 128);
}

fn ep(setting: u8, address: u8, kind: TransferKind, flow: Flow, size: u16) -> Endpoint {
    Endpoint { setting, address, kind, flow, max_packet_size: size }
}

#[test]
fn packet_size_field_is_decoded() {
    assert_eq!(packet_bytes(0), 0);
    assert_eq!(packet_bytes(1023), 1023);
    assert_eq!(packet_bytes(0x07ff), 2047);
    assert_eq!(packet_bytes(0x0800), 0);
    assert_eq!(packet_bytes(0x0c00), 2048);
    assert_eq!(packet_bytes(0x1400), 3072);
    assert_eq!(packet_bytes(0x1fff), 8188);
    assert_eq!(packet_bytes(0xe3ff), 1023);
}

#[test]
fn largest_isochronous_in_endpoint_wins() {
    let eps = [
        ep(0, 0x81, TransferKind::Isochronous, Flow::In, 0),
        ep(1, 0x81, TransferKind::Isochronous, Flow::In, 128),
        ep(7, 0x81, TransferKind::Isochronous, Flow::In, 1023),
        ep(8, 0x82, TransferKind::Isochronous, Flow::In, 1023),
        ep(9, 0x02, TransferKind::Isochronous, Flow::Out, 2000),
        ep(9, 0x83, TransferKind::Bulk, Flow::In, 2000),
        ep(9, 0x84, TransferKind::Interrupt, Flow::In, 2000),
        ep(9, 0x85, TransferKind::Control, Flow::In, 2000),
        ep(3, 0x81, TransferKind::Isochronous, Flow::In, 512),
    ];
    assert_eq!(pick_endpoint(&eps), Ok(Chosen { bytes: 1023, setting: 7, address: 0x81 }));
}

#[test]
fn without_isochronous_in_there_is_no_stream() {
    let none = Err(EndpointError::NoIsochronousIn);
    assert_eq!(pick_endpoint(&[]), none);
    assert_eq!(
        pick_endpoint(&[
            ep(0, 0x81, TransferKind::Isochronous, Flow::In, 0),
            ep(1, 0x01, TransferKind::Isochronous, Flow::Out, 64),
            ep(1, 0x82, TransferKind::Bulk, Flow::In, 64),
        ]),
        none
    );
    assert_eq!(EndpointError::NoIsochronousIn.message(), "no isochronous IN endpoint found");
}
