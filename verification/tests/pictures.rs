use spca561::frame::FrameState;
use spca561::ppm::{frame_name, ppm_header};

#[test]
fn file_names_are_numbered() {
    assert_eq!(frame_name(0), "frame_0000.ppm");
    assert_eq!(frame_name(7), "frame_0007.ppm");
    assert_eq!(frame_name(10), "frame_0010.ppm");
    assert_eq!(frame_name(123), "frame_0123.ppm");
    assert_eq!(frame_name(9999), "frame_9999.ppm");
    assert_eq!(frame_name(10_000), "frame_10000.ppm");
    assert_eq!(frame_name(u32::MAX), "frame_4294967295.ppm");
}

#[test]
fn file_names_agree_with_format() {
    for n in (0..20_000).chain([99_999, 100_000, 1_234_567_890]) {
        assert_eq!(frame_name(n), format!("frame_{:04}.ppm", n));
    }
}

#[test]
fn header_names_the_format_and_size() {
    assert_eq!(ppm_header(), "P6\n352 288\n255\n");
}

#[test]
fn saved_picture_holds_red_green_blue() {
    let mut s = FrameState::new();
    s.rgb[0] = 0x0011_2233;
    s.rgb[1] = 0xff44_5566;
    let last = s.rgb.len() - 1;
    s.rgb[last] = 0x0077_8899;
    s.count = 3;
    let f = s.save_ppm();
    assert_eq!(f.name, "frame_0003.ppm");
    assert_eq!(f.header, "P6\n352 288\n255\n");
    assert_eq!(f.pixels.len(), 3 * 352 * 288);
    assert_eq!(&f.pixels[..7], &[0x11, 0x22, 0x33, 0x44, 0x55, 0x66, 0]);
    assert_eq!(&f.pixels[3 * last..], &[0x77, 0x88, 0x99]);
}

#[test]
fn saved_picture_shows_the_samples() {
    let mut s = FrameState::new();
    s.buf[0] = 10; // green
    s.buf[1] = 20; // blue
    s.buf[352] = 30; // red
    s.emit();
    let f = s.save_ppm();
    assert_eq!(&f.pixels[..9], &[30, 10, 20, 30, 10, 20, 0, 0, 0]);
    assert_eq!(&f.pixels[3 * 352..3 * 352 + 3], &[30, 10, 20]);
}

#[test]
fn only_written_pictures_use_up_a_number() {
    let mut s = FrameState::new();
    assert_eq!(s.save_ppm().name, "frame_0000.ppm");
    assert!(!s.save_finished(false, false));
    assert_eq!(s.count, 0);
    assert_eq!(s.save_ppm().name, "frame_0000.ppm");
    // Created, but the disk was full.
    assert!(!s.save_finished(true, false));
    assert_eq!(s.count, 0);
    assert_eq!(s.save_ppm().name, "frame_0000.ppm");
    assert!(!s.save_finished(false, true));
    assert_eq!(s.count, 0);
    assert!(s.save_finished(true, true));
    assert_eq!(s.count, 1);
    assert_eq!(s.save_ppm().name, "frame_0001.ppm");
    assert!(s.save_finished(true, true));
    assert_eq!(s.count, 2);
}

#[test]
fn a_failed_save_is_fine_at_the_last_number() {
    let mut s = FrameState::new();
    s.count = u32::MAX;
    s.save_finished(true, false);
    s.save_finished(false, false);
    assert_eq!(s.count, u32::MAX);
    assert_eq!(s.save_ppm().name, "frame_4294967295.ppm");
}

#[test]
fn saving_touches_the_count_alone() {
    let mut s = FrameState::new();
    s.buf[3] = 4;
    s.emit();
    let rgb = s.rgb.clone();
    let buf = s.buf.clone();
    s.save_finished(true, true);
    assert_eq!((s.pos, s.valid, s.seq), (0, false, 1));
    assert_eq!(s.rgb, rgb);
    assert_eq!(s.buf, buf);
}
