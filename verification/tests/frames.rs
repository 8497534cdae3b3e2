use spca561::bayer::{pack_rgb, unpack_rgb, FRAME_SZ, HEIGHT, WIDTH};
use spca561::frame::{FrameState, MIN_FRAME_FILL};

/// A start-of-frame packet that carries `pixels` behind a blank header.
fn start(pixels: &[u8]) -> Vec<u8> {
    let mut p = vec![0u8; 17];
    p.extend_from_slice(pixels);
    p
}

/// A packet that continues a frame.
fn more(seq: u8, pixels: &[u8]) -> Vec<u8> {
    let mut p = vec![seq];
    p.extend_from_slice(pixels);
    p
}

/// A raw frame with some structure in it.
fn raw(seed: usize) -> Vec<u8> {
    (0..FRAME_SZ).map(|i| ((i * 7 + i / WIDTH * 13 + seed * 31) % 251) as u8).collect()
}

/// The picture of a raw frame.
fn picture(buf: &[u8]) -> Vec<u32> {
    let mut rgb = vec![0u32; FRAME_SZ];
    for y in 0..HEIGHT {
        for x in 0..WIDTH {
            let (y0, x0) = (y / 2 * 2, x / 2 * 2);
            let g = buf[y0 * WIDTH + x0] as u32;
            let b = buf[y0 * WIDTH + x0 + 1] as u32;
            let r = buf[(y0 + 1) * WIDTH + x0] as u32;
            rgb[y * WIDTH + x] = r * 0x10000 + g * 0x100 + b;
        }
    }
    rgb
}

/// Sends the first `len` bytes of a frame in packets of at most 1022 bytes of pixels.
fn send(s: &mut FrameState, pixels: &[u8], len: usize) {
    let mut seq = 1u8;
    assert!(!s.packet(&start(&pixels[..100])));
    for chunk in pixels[100..len].chunks(1022) {
        assert!(!s.packet(&more(seq, chunk)));
        seq = if seq == 0xfe { 1 } else { seq + 1 };
    }
}

#[test]
fn geometry_of_a_frame() {
    assert_eq!(WIDTH, 352);
    assert_eq!(HEIGHT, 288);
    assert_eq!(FRAME_SZ, 101_376);
    assert_eq!(MIN_FRAME_FILL, 88_704);
}

#[test]
fn new_state_is_black_and_idle() {
    let s = FrameState::new();
    assert_eq!(s.buf, vec![0u8; 101_376]);
    assert_eq!(s.rgb, vec![0u32; 101_376]);
    assert_eq!((s.pos, s.valid, s.count, s.seq), (0, false, 0, 0));
}

#[test]
fn pixels_pack_and_unpack() {
    assert_eq!(pack_rgb(0x12, 0x34, 0x56), 0x0012_3456);
    assert_eq!(unpack_rgb(0x0012_3456), (0x12, 0x34, 0x56));
    assert_eq!(unpack_rgb(0xff12_3456), (0x12, 0x34, 0x56));
}

#[test]
fn emit_reconstructs_blocks() {
    let mut s = FrameState::new();
    // One block at line 2, column 4: green 1, blue 2, red 3, second green 4.
    s.buf[2 * 352 + 4] = 1;
    s.buf[2 * 352 + 5] = 2;
    s.buf[3 * 352 + 4] = 3;
    s.buf[3 * 352 + 5] = 4;
    s.emit();
    for (y, x) in [(2, 4), (2, 5), (3, 4), (3, 5)] {
        assert_eq!(s.rgb[y * 352 + x], 0x0003_0102);
    }
    assert_eq!(s.rgb.iter().filter(|p| **p != 0).count(), 4);
    assert_eq!(s.seq, 1);
}

#[test]
fn second_green_is_not_shown() {
    let mut a = FrameState::new();
    a.buf = raw(6);
    let mut b = FrameState::new();
    b.buf = raw(6);
    for y in (1..HEIGHT).step_by(2) {
        for x in (1..WIDTH).step_by(2) {
            b.buf[y * WIDTH + x] ^= 0xff;
        }
    }
    a.emit();
    b.emit();
    assert_eq!(a.rgb, b.rgb);
}

#[test]
fn emit_wraps_the_frame_number() {
    let mut s = FrameState::new();
    s.seq = u64::MAX;
    s.emit();
    assert_eq!(s.seq, 0);
}

#[test]
fn empty_packets_change_nothing() {
    let mut s = FrameState::new();
    s.packet(&start(&[9, 8, 7]));
    assert!(!s.packet(&[]));
    assert!(!s.packet(&[0xff]));
    assert!(!s.packet(&[0xff, 1, 2, 3]));
    assert_eq!((s.pos, s.valid), (3, true));
    assert_eq!(&s.buf[..4], &[9, 8, 7, 0]);
}

#[test]
fn nothing_happens_before_a_start_of_frame() {
    let mut s = FrameState::new();
    assert!(!s.packet(&more(1, &[1, 2, 3])));
    assert!(!s.packet(&more(0xfe, &[1, 2, 3])));
    assert_eq!((s.pos, s.valid), (0, false));
    assert_eq!(s.buf, vec![0u8; FRAME_SZ]);
}

#[test]
fn short_headers_drop_the_frame() {
    for len in 1..17 {
        let mut s = FrameState::new();
        assert!(!s.packet(&vec![0u8; len]));
        assert!(!s.valid);
        s.packet(&more(1, &[5]));
        assert_eq!(s.pos, 0);
    }
    let mut s = FrameState::new();
    assert!(!s.packet(&[0u8; 17]));
    assert_eq!((s.pos, s.valid), (0, true));
}

#[test]
fn compressed_frames_are_reported_and_dropped() {
    for len in [3, 16, 17, 200] {
        let mut s = FrameState::new();
        let mut p = vec![0u8; len];
        p[2] = 0x10;
        assert!(s.packet(&p));
        assert!(!s.valid);
        p[2] = 0xff;
        assert!(s.packet(&p));
        p[2] = 0xef;
        assert!(!s.packet(&p));
        assert_eq!(s.valid, len >= 17);
    }
    // The bit counts at the start of a frame only, and in the second header byte only.
    let mut s = FrameState::new();
    assert!(!s.packet(&[1, 0x10, 0x10, 0x10]));
    let mut p = start(&[]);
    p[1] = 0x10;
    p[3] = 0x10;
    assert!(!s.packet(&p));
    assert!(s.valid);
}

#[test]
fn whole_frame_is_shown_as_sent() {
    let mut s = FrameState::new();
    s.buf = raw(5);
    let sent = raw(1);
    send(&mut s, &sent, FRAME_SZ);
    assert_eq!((s.pos, s.seq), (FRAME_SZ, 0));
    assert_eq!(s.buf, sent);
    s.packet(&start(&[]));
    assert_eq!((s.pos, s.seq), (0, 1));
    assert_eq!(s.rgb, picture(&sent));
}

#[test]
fn bytes_beyond_a_frame_are_dropped() {
    let mut s = FrameState::new();
    let sent = raw(2);
    send(&mut s, &sent, FRAME_SZ);
    s.packet(&more(7, &[1; 300]));
    assert_eq!(s.pos, FRAME_SZ);
    assert_eq!(s.buf, sent);
}

#[test]
fn last_packet_is_cut_to_fit() {
    let mut s = FrameState::new();
    s.packet(&start(&[]));
    s.pos = FRAME_SZ - 2;
    s.packet(&more(7, &[1, 2, 3, 4]));
    assert_eq!(s.pos, FRAME_SZ);
    assert_eq!(&s.buf[FRAME_SZ - 3..], &[0, 1, 2]);
}

#[test]
fn seven_eighths_are_enough() {
    let mut s = FrameState::new();
    let first = raw(1);
    send(&mut s, &first, FRAME_SZ);
    let second = raw(2);
    send(&mut s, &second, MIN_FRAME_FILL);
    assert_eq!(s.seq, 1);
    s.packet(&start(&[]));
    assert_eq!(s.seq, 2);
    let mut mixed = second[..MIN_FRAME_FILL].to_vec();
    mixed.extend_from_slice(&first[MIN_FRAME_FILL..]);
    assert_eq!(s.rgb, picture(&mixed));
    // The lost tail shows the frame before.
    let before = picture(&first);
    assert_eq!(&s.rgb[MIN_FRAME_FILL..], &before[MIN_FRAME_FILL..]);
}

#[test]
fn less_than_seven_eighths_is_discarded() {
    let mut s = FrameState::new();
    let first = raw(1);
    send(&mut s, &first, FRAME_SZ);
    let second = raw(2);
    send(&mut s, &second, MIN_FRAME_FILL - 1);
    s.packet(&start(&[]));
    assert_eq!(s.seq, 1);
    assert_eq!(s.rgb, picture(&first));
}

#[test]
fn a_bad_start_still_shows_the_frame_before_it() {
    let mut s = FrameState::new();
    let first = raw(3);
    send(&mut s, &first, FRAME_SZ);
    assert!(!s.packet(&[0x00]));
    assert_eq!(s.seq, 1);
    assert_eq!(s.rgb, picture(&first));
    assert!(!s.valid);
    // A frame that was dropped is not shown, even though the position is reset.
    s.packet(&start(&[]));
    assert_eq!(s.seq, 1);
}

#[test]
fn frames_may_be_cut_anywhere() {
    let sent = raw(4);
    let mut a = FrameState::new();
    send(&mut a, &sent, FRAME_SZ);
    let mut b = FrameState::new();
    b.packet(&start(&sent[..1]));
    b.packet(&[0xff]);
    b.packet(&more(3, &sent[1..50_000]));
    b.packet(&more(3, &[]));
    b.packet(&[]);
    b.packet(&more(9, &sent[50_000..]));
    assert_eq!(a.buf, b.buf);
    assert_eq!(a.pos, b.pos);
}
