use spca561::camera::{Cam, Op};
use spca561::pacing::{Pacer, IDLE_PUMP, REPORT_PERIOD};
use spca561::sequencer::{Reply, Request, Sequencer};
use spca561::tables::{
    CLCK_FOR_MODE, MODE, REV72A_INIT_DATA1, REV72A_INIT_DATA2, REV72A_INIT_SENSOR1,
    REV72A_INIT_SENSOR2, REV72A_RESET,
};

fn w(index: u16, value: u8) -> Op {
    Op::Write { index, value }
}

fn vector(table: &[[u16; 2]]) -> Vec<Op> {
    table.iter().map(|e| w(e[1], e[0] as u8)).collect()
}

fn sensor(table: &[[u16; 2]]) -> Vec<Op> {
    let mut ops = Vec::new();
    for e in table {
        ops.push(w(0x8801, e[0] as u8));
        ops.push(w(0x8805, e[1] as u8));
        ops.push(w(0x8800, (e[1] >> 8) as u8));
        ops.push(Op::Handshake { reg: e[0] });
    }
    ops
}

fn reset() -> Vec<Op> {
    let mut ops = vector(&REV72A_RESET);
    ops.push(Op::Sleep { ms: 200 });
    ops.extend(vector(&REV72A_INIT_DATA1));
    ops.extend(sensor(&REV72A_INIT_SENSOR1));
    ops
}

/// What a register holds after a script.
fn register(ops: &[Op], reg: u16, before: u8) -> u8 {
    let mut v = before;
    for op in ops {
        if let Op::Write { index, value } = op {
            if *index == reg {
                v = *value;
            }
        }
    }
    v
}

fn init_script() -> Vec<Op> {
    let mut cam = Cam::new();
    cam.init();
    cam.ops
}

fn start_script() -> Vec<Op> {
    let mut cam = Cam::new();
    cam.start();
    cam.ops
}

#[test]
fn table_entries_are_written_as_listed() {
    let mut cam = Cam::new();
    cam.reg_w(0x8112, 0x20);
    cam.write_vector(&[[0x0113, 0x8701], [0x0001, 0x8703]]);
    assert_eq!(cam.ops, vec![w(0x8112, 0x20), w(0x8701, 0x13), w(0x8703, 0x01)]);
}

#[test]
fn sensor_writes_go_through_the_serial_port() {
    let mut cam = Cam::new();
    cam.i2c_write(0x1504, 0x0120);
    let one = vec![w(0x8801, 0x20), w(0x8805, 0x04), w(0x8800, 0x15), Op::Handshake { reg: 0x0120 }];
    assert_eq!(cam.ops, one);
    let mut cam = Cam::new();
    cam.write_sensor(&[[0x0120, 0x1504]]);
    assert_eq!(cam.ops, one);
}

#[test]
fn white_balance_gains() {
    let mut cam = Cam::new();
    cam.set_white(0x20, 0x20);
    assert_eq!(cam.ops, vec![w(0x8652, 0x40), w(0x8654, 0x40), w(0x8651, 0x2c), w(0x8653, 0x7c)]);
    // Quotients round towards zero, and gains wrap to a byte.
    let mut cam = Cam::new();
    cam.set_white(-3, 0x20);
    assert_eq!(cam.ops[2..], [w(0x8651, 0x1f), w(0x8653, 0x91)]);
    let mut cam = Cam::new();
    cam.set_white(1000, -33);
    assert_eq!(
        cam.ops,
        vec![w(0x8652, 0xff), w(0x8654, 0xff), w(0x8651, (342i32) as u8), w(0x8653, (-546i32) as u8)]
    );
}

#[test]
fn init_runs_every_table() {
    let mut expected = reset();
    expected.extend(vector(&REV72A_INIT_DATA2));
    expected.extend(sensor(&REV72A_INIT_SENSOR2));
    expected.push(w(0x8112, 0x30));
    assert_eq!(init_script(), expected);
}

#[test]
fn start_selects_the_mode_and_goes() {
    let mut expected = reset();
    expected.push(w(0x8700, 0x27));
    expected.push(w(0x8702, 0x81));
    expected.push(w(0x8500, 0x00));
    expected.extend(sensor(&REV72A_INIT_SENSOR2));
    expected.extend([w(0x8652, 0x40), w(0x8654, 0x40), w(0x8651, 0x2c), w(0x8653, 0x7c)]);
    expected.push(w(0x8112, 0x30));
    assert_eq!(start_script(), expected);
    assert_eq!(CLCK_FOR_MODE[MODE as usize], 0x27);
}

#[test]
fn stop_withdraws_the_go_ahead() {
    let mut cam = Cam::new();
    cam.stop();
    assert_eq!(cam.ops, vec![w(0x8112, 0x20)]);
}

#[test]
fn tables_have_their_sizes() {
    assert_eq!(REV72A_RESET.len(), 3);
    assert_eq!(REV72A_INIT_DATA1.len(), 6);
    assert_eq!(REV72A_INIT_SENSOR1.len(), 12);
    assert_eq!(REV72A_INIT_DATA2.len(), 29);
    assert_eq!(REV72A_INIT_SENSOR2.len(), 7);
    assert_eq!(CLCK_FOR_MODE, [0x27, 0x25, 0x22, 0x21]);
}

#[test]
fn init_alone_sets_the_geometry() {
    let init = init_script();
    assert_eq!(2 * register(&init, 0x865d, 1) as usize, 352);
    assert_eq!(2 * register(&init, 0x865e, 1) as usize, 288);
    assert_eq!(register(&init, 0x8406, 1), 0xe0);
    assert_eq!(register(&init, 0x8500, 1), 0);
    let start = start_script();
    for reg in [0x865b, 0x865c, 0x865d, 0x865e, 0x865f, 0x8406, 0x8601] {
        assert_eq!(register(&start, reg, 0x5a), 0x5a);
    }
}

#[test]
fn a_restart_needs_no_second_init() {
    let mut cam = Cam::new();
    cam.init();
    cam.start();
    cam.stop();
    assert_eq!(register(&cam.ops, 0x8112, 0), 0x20);
    cam.start();
    assert_eq!(register(&cam.ops, 0x8112, 0), 0x30);
    assert_eq!(register(&cam.ops, 0x865d, 0), 0xb0);
    assert_eq!(register(&cam.ops, 0x865e, 0), 0x90);
    for again in [true, true, false, false, true, false, true] {
        if again {
            cam.start();
        } else {
            cam.stop();
        }
        assert_eq!(register(&cam.ops, 0x865d, 0), 0xb0);
        assert_eq!(register(&cam.ops, 0x865e, 0), 0x90);
        assert_eq!(register(&cam.ops, 0x8406, 0), 0xe0);
    }
}

#[test]
fn scripts_append() {
    let mut cam = Cam::new();
    cam.init();
    cam.start();
    let mut both = init_script();
    both.extend(start_script());
    assert_eq!(cam.ops, both);
}

#[test]
fn writes_and_pauses_run_in_order() {
    let mut s = Sequencer::new(vec![w(0x8114, 1), Op::Sleep { ms: 200 }, w(0x8112, 2)]);
    assert_eq!(s.request(), Request::Write { index: 0x8114, value: 1 });
    assert_eq!(s.request(), Request::Write { index: 0x8114, value: 1 });
    s.advance(Reply::Failed);
    assert_eq!(s.request(), Request::Sleep { ms: 200 });
    s.advance(Reply::Done);
    assert_eq!(s.request(), Request::Write { index: 0x8112, value: 2 });
    s.advance(Reply::Byte(7));
    assert_eq!(s.request(), Request::Finished);
    s.advance(Reply::Done);
    assert_eq!(s.request(), Request::Finished);
}

#[test]
fn handshake_ends_at_zero() {
    let mut s = Sequencer::new(vec![Op::Handshake { reg: 9 }, w(1, 1)]);
    for busy in [Reply::Byte(1), Reply::Failed, Reply::Byte(0xff), Reply::Done] {
        assert_eq!(s.request(), Request::Read { index: 0x8803 });
        s.advance(busy);
        assert_eq!(s.request(), Request::Sleep { ms: 10 });
        s.advance(Reply::Done);
    }
    assert_eq!(s.request(), Request::Read { index: 0x8803 });
    s.advance(Reply::Byte(0));
    assert_eq!(s.request(), Request::Write { index: 1, value: 1 });
}

#[test]
fn handshake_may_end_at_the_last_poll() {
    let mut s = Sequencer::new(vec![Op::Handshake { reg: 9 }]);
    for _ in 0..59 {
        s.advance(Reply::Byte(1));
        s.advance(Reply::Done);
    }
    assert_eq!(s.request(), Request::Read { index: 0x8803 });
    s.advance(Reply::Byte(0));
    assert_eq!(s.request(), Request::Finished);
}

#[test]
fn handshake_times_out_after_sixty_polls() {
    let mut s = Sequencer::new(vec![Op::Handshake { reg: 0x39 }, Op::Handshake { reg: 2 }]);
    for _ in 0..60 {
        assert_eq!(s.request(), Request::Read { index: 0x8803 });
        s.advance(Reply::Failed);
        assert_eq!(s.request(), Request::Sleep { ms: 10 });
        s.advance(Reply::Done);
    }
    assert_eq!(s.request(), Request::TimedOut { reg: 0x39 });
    s.advance(Reply::Done);
    // The next handshake starts afresh.
    assert_eq!(s.request(), Request::Read { index: 0x8803 });
    s.advance(Reply::Byte(0));
    assert_eq!(s.request(), Request::Finished);
}

#[test]
fn scripts_write_the_same_whatever_the_answers() {
    let script = init_script();
    let expected: Vec<(u16, u8)> = script
        .iter()
        .filter_map(|op| match op {
            Op::Write { index, value } => Some((*index, *value)),
            _ => None,
        })
        .collect();
    for reply in [Reply::Done, Reply::Failed, Reply::Byte(0), Reply::Byte(3)] {
        let mut s = Sequencer::new(init_script());
        let mut written = Vec::new();
        let mut requests = 0;
        loop {
            match s.request() {
                Request::Finished => break,
                Request::Write { index, value } => written.push((index, value)),
                _ => {}
            }
            requests += 1;
            s.advance(reply);
        }
        assert_eq!(written, expected);
        let handshakes = 19;
        let worst = script.len() - handshakes + 121 * handshakes;
        assert_eq!(requests, if reply == Reply::Byte(0) { script.len() } else { worst });
    }
}

#[test]
fn loop_runs_until_asked_to_stop() {
    assert!(Pacer::keep_running(true, true, false));
    assert!(!Pacer::keep_running(false, true, false));
    assert!(!Pacer::keep_running(true, false, false));
    assert!(!Pacer::keep_running(true, true, true));
}

#[test]
fn frame_rate_is_reported_once_a_second() {
    let mut p = Pacer::new(500);
    assert!(!p.report_due(500));
    assert!(!p.report_due(500 + REPORT_PERIOD - 1));
    assert!(p.report_due(500 + REPORT_PERIOD));
    assert_eq!(p.report(5, 500 + REPORT_PERIOD), 5);
    assert!(!p.report_due(600 + REPORT_PERIOD));
    assert!(!p.report_due(0));
    assert_eq!(p.report(12, 500 + 2 * REPORT_PERIOD), 7);
    assert_eq!(p.last_report_seq, 12);
    assert_eq!(p.last_pump, 500);
}

#[test]
fn picture_is_drawn_every_sixteen_milliseconds() {
    assert_eq!(IDLE_PUMP, 16_000_000);
    let mut p = Pacer::new(0);
    assert!(!p.pump_due(15_999_999));
    assert!(p.pump_due(16_000_000));
    p.pumped(16_000_001);
    assert!(!p.pump_due(32_000_000));
    assert!(p.pump_due(32_000_001));
    assert!(!p.pump_due(1));
    assert_eq!(p.last_report, 0);
}
