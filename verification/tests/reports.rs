use spca561::control::{read_setup, write_setup, Control};
use spca561::endpoint::Chosen;
use spca561::text::{append_decimal, append_hex, endpoint_line, rate_line, timed_out, write_failed};

#[test]
fn register_writes_are_vendor_transfers_without_data() {
    assert_eq!(
        write_setup(0x8112, 0x30),
        Control {
            request_type: 0x40,
            request: 0,
            value: 0x30,
            index: 0x8112,
            length: 0,
            timeout_ms: 500,
        }
    );
    assert_eq!(write_setup(0, 0xff).value, 0x00ff);
}

#[test]
fn register_reads_are_vendor_transfers_of_one_byte() {
    assert_eq!(
        read_setup(0x8803),
        Control {
            request_type: 0xC0,
            request: 0,
            value: 0,
            index: 0x8803,
            length: 1,
            timeout_ms: 500,
        }
    );
}

#[test]
fn failed_writes_name_register_and_value() {
    assert_eq!(write_failed(0x8112, 0x30), "reg_w 0x8112=0x30 failed: ");
    assert_eq!(write_failed(0x1a, 0xb), "reg_w 0x001a=0x0b failed: ");
    assert_eq!(write_failed(0xffff, 0xff), "reg_w 0xffff=0xff failed: ");
    assert_eq!(write_failed(0, 0), "reg_w 0x0000=0x00 failed: ");
}

#[test]
fn timeouts_name_the_sensor_register() {
    assert_eq!(timed_out(0x39), "i2c_write reg 0x39 timed out");
    assert_eq!(timed_out(0x1), "i2c_write reg 0x01 timed out");
    assert_eq!(timed_out(0x123), "i2c_write reg 0x123 timed out");
    assert_eq!(timed_out(0xfedc), "i2c_write reg 0xfedc timed out");
}

#[test]
fn endpoint_is_announced() {
    let c = Chosen { bytes: 1023, setting: 7, address: 0x81 };
    assert_eq!(endpoint_line(&c), "using alt 7, ep 0x81, 1023 bytes/packet");
    let c = Chosen { bytes: 8, setting: 10, address: 0x5 };
    assert_eq!(endpoint_line(&c), "using alt 10, ep 0x05, 8 bytes/packet");
}

#[test]
fn frame_rate_is_announced() {
    assert_eq!(rate_line(5), "5 fps");
    assert_eq!(rate_line(0), "0 fps");
    assert_eq!(rate_line(u64::MAX), "18446744073709551615 fps");
}

#[test]
fn numbers_agree_with_format() {
    for n in 0..=u16::MAX {
        let mut h = String::from("x");
        append_hex(&mut h, n, 1);
        assert_eq!(h, format!("x{:x}", n));
        let mut h = String::new();
        append_hex(&mut h, n, 6);
        assert_eq!(h, format!("{:06x}", n));
        let mut d = String::new();
        append_decimal(&mut d, n as u64);
        assert_eq!(d, format!("{}", n));
    }
}
