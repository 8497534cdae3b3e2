//! What the scripts leave in the bridge's registers.

use vstd::prelude::*;

use crate::bayer::{HEIGHT, WIDTH};
use crate::camera;
use crate::camera::Op;
use crate::tables::{
    CLCK_FOR_MODE, MODE, REV72A_INIT_DATA1, REV72A_INIT_DATA2, REV72A_INIT_SENSOR1,
    REV72A_INIT_SENSOR2, REV72A_RESET,
};

verus! {

/// What the register `index` holds after a script, if it held `before`.
pub open spec fn register_after(ops: Seq<Op>, index: u16, before: u8) -> u8
    decreases ops.len(),
{
    if ops.len() == 0 {
        before
    } else {
        match ops.last() {
            Op::Write { index: i, value } => if i == index {
                value
            } else {
                register_after(ops.drop_last(), index, before)
            },
            _ => register_after(ops.drop_last(), index, before),
        }
    }
}

/// Whether a script leaves the register `index` alone.
pub open spec fn untouched(ops: Seq<Op>, index: u16) -> bool {
    forall|i: int|
        0 <= i < ops.len() ==> (#[trigger] ops[i] matches Op::Write { index: w, .. } ==> w != index)
}

/// Running two scripts one after the other.
pub proof fn law_scripts_compose(a: Seq<Op>, b: Seq<Op>, index: u16, before: u8)
    ensures
        register_after(a + b, index, before) == register_after(
            b,
            index,
            register_after(a, index, before),
        ),
    decreases b.len(),
{
    if b.len() == 0 {
        assert(a + b =~= a);
    } else {
        assert((a + b).drop_last() =~= a + b.drop_last());
        law_scripts_compose(a, b.drop_last(), index, before);
    }
}

proof fn lemma_untouched(ops: Seq<Op>, index: u16, before: u8)
    requires
        untouched(ops, index),
    ensures
        register_after(ops, index, before) == before,
    decreases ops.len(),
{
    if ops.len() > 0 {
        let last = ops.len() - 1;
        assert(ops[last] == ops.last());
        assert forall|i: int| 0 <= i < last implies (
        #[trigger] ops.drop_last()[i] matches Op::Write { index: w, .. } ==> w != index) by {
            assert(ops.drop_last()[i] == ops[i]);
        }
        lemma_untouched(ops.drop_last(), index, before);
    }
}

/// A script for the sensor goes through the serial port's three registers only.
pub proof fn law_sensor_scripts_use_serial_port_only(table: Seq<[u16; 2]>, index: u16, before: u8)
    requires
        index != 0x8800,
        index != 0x8801,
        index != 0x8805,
    ensures
        untouched(camera::sensor_ops(table), index),
        register_after(camera::sensor_ops(table), index, before) == before,
    decreases table.len(),
{
    if table.len() > 0 {
        law_sensor_scripts_use_serial_port_only(table.drop_last(), index, before);
        let front = camera::sensor_ops(table.drop_last());
        let back = camera::i2c_ops(table.last()@[1], table.last()@[0]);
        assert forall|i: int| 0 <= i < (front + back).len() implies (
        #[trigger] (front + back)[i] matches Op::Write { index: w, .. } ==> w != index) by {
            if i < front.len() {
                assert((front + back)[i] == front[i]);
            } else {
                assert((front + back)[i] == back[i - front.len()]);
            }
        }
    }
    lemma_untouched(camera::sensor_ops(table), index, before);
}

proof fn lemma_last_of_table(table: Seq<[u16; 2]>, k: int, index: u16, before: u8)
    requires
        0 <= k < table.len(),
        table[k]@[1] == index,
        forall|j: int| k < j < table.len() ==> (#[trigger] table[j])@[1] != index,
    ensures
        register_after(camera::vector_ops(table), index, before) == camera::low_byte(table[k]@[0]),
    decreases table.len(),
{
    let ops = camera::vector_ops(table);
    assert(ops.drop_last() =~= camera::vector_ops(table.drop_last()));
    assert(table.last() == table[table.len() - 1]);
    if k < table.len() - 1 {
        assert forall|j: int| k < j < table.drop_last().len() implies (
        #[trigger] table.drop_last()[j])@[1] != index by {
            assert(table.drop_last()[j] == table[j]);
        }
        lemma_last_of_table(table.drop_last(), k, index, before);
    }
}

/// What `init` leaves in a register that no other part of it touches is what the second group of
/// bridge settings puts there.
proof fn lemma_init_from_data2(k: int, index: u16, before: u8)
    requires
        index != 0x8800,
        index != 0x8801,
        index != 0x8805,
        index != 0x8112,
        0 <= k < REV72A_INIT_DATA2@.len(),
        REV72A_INIT_DATA2@[k]@[1] == index,
        forall|j: int|
            k < j < REV72A_INIT_DATA2@.len() ==> (#[trigger] REV72A_INIT_DATA2@[j])@[1] != index,
    ensures
        register_after(camera::init_ops(), index, before) == camera::low_byte(
            REV72A_INIT_DATA2@[k]@[0],
        ),
{
    let a = camera::reset_ops();
    let b = camera::vector_ops(REV72A_INIT_DATA2@);
    let c = camera::sensor_ops(REV72A_INIT_SENSOR2@);
    let d = camera::write_op(0x8112, 0x30);
    law_scripts_compose(a + b + c, d, index, before);
    law_scripts_compose(a + b, c, index, before);
    law_scripts_compose(a, b, index, before);
    let x = register_after(a, index, before);
    lemma_last_of_table(REV72A_INIT_DATA2@, k, index, x);
    let y = register_after(b, index, x);
    law_sensor_scripts_use_serial_port_only(REV72A_INIT_SENSOR2@, index, y);
    lemma_untouched(d, index, y);
}

/// `init` gives the bridge its frame geometry, whatever the registers held: a valid-pixel window
/// of half the frame's width and height in steps of two, the memory buffer threshold, and the
/// image type of the capture mode.
pub proof fn law_init_sets_geometry(width: u8, height: u8, threshold: u8, image_type: u8)
    ensures
        2 * register_after(camera::init_ops(), 0x865d, width) == WIDTH,
        2 * register_after(camera::init_ops(), 0x865e, height) == HEIGHT,
        register_after(camera::init_ops(), 0x8406, threshold) == 0xe0,
        register_after(camera::init_ops(), 0x8500, image_type) == MODE,
{
    lemma_init_from_data2(7, 0x865d, width);
    lemma_init_from_data2(8, 0x865e, height);
    lemma_init_from_data2(9, 0x8406, threshold);
    lemma_init_from_data2(26, 0x8500, image_type);
}

/// The script of `start` in its parts: what the reset leaves, then the mode, then the sensor, then
/// the gains, then the go-ahead.
proof fn lemma_start_in_parts(index: u16, before: u8)
    requires
        index != 0x8800,
        index != 0x8801,
        index != 0x8805,
    ensures
        register_after(camera::start_ops(), index, before) == ({
            let a = register_after(camera::reset_ops(), index, before);
            if index == 0x8112 {
                0x30u8
            } else if index == 0x8652 || index == 0x8654 {
                0x40
            } else if index == 0x8651 {
                0x2c
            } else if index == 0x8653 {
                0x7c
            } else if index == 0x8500 {
                MODE
            } else if index == 0x8702 {
                0x81
            } else if index == 0x8700 {
                CLCK_FOR_MODE@[MODE as int]
            } else {
                a
            }
        }),
{
    let a = camera::reset_ops();
    let b = camera::write_op(0x8700, CLCK_FOR_MODE@[MODE as int]);
    let c = camera::write_op(0x8702, 0x81);
    let d = camera::write_op(0x8500, MODE);
    let e = camera::sensor_ops(REV72A_INIT_SENSOR2@);
    let f = camera::white_ops(0x20, 0x20);
    let g = camera::write_op(0x8112, 0x30);
    law_scripts_compose(a + b + c + d + e + f, g, index, before);
    law_scripts_compose(a + b + c + d + e, f, index, before);
    law_scripts_compose(a + b + c + d, e, index, before);
    law_scripts_compose(a + b + c, d, index, before);
    law_scripts_compose(a + b, c, index, before);
    law_scripts_compose(a, b, index, before);
    reveal_with_fuel(register_after, 5);
    let v = register_after(a, index, before);
    let w = register_after(b, index, v);
    let x = register_after(c, index, w);
    let y = register_after(d, index, x);
    law_sensor_scripts_use_serial_port_only(REV72A_INIT_SENSOR2@, index, y);
    assert(f.drop_last() =~= seq![f[0], f[1], f[2]]);
    assert(f.drop_last().drop_last() =~= seq![f[0], f[1]]);
    assert(f.drop_last().drop_last().drop_last() =~= seq![f[0]]);
    assert(f.drop_last().drop_last().drop_last().drop_last() =~= Seq::<Op>::empty());
}

/// The bridge registers that the reset and the first group of settings write.
pub open spec fn is_reset_register(index: u16) -> bool {
    ||| index == 0x8114
    ||| index == 0x8112
    ||| index == 0x8701
    ||| index == 0x8703
    ||| index == 0x8118
    ||| index == 0x8804
    ||| index == 0x8802
}

/// The bridge registers that a write to the sensor goes through.
pub open spec fn is_serial_port(index: u16) -> bool {
    index == 0x8800 || index == 0x8801 || index == 0x8805
}

/// The bridge registers that choose the mode and the white balance gains.
pub open spec fn is_stream_setting(index: u16) -> bool {
    ||| index == 0x8700
    ||| index == 0x8702
    ||| index == 0x8500
    ||| 0x8651 <= index <= 0x8654
}

proof fn lemma_reset_untouched(index: u16, before: u8)
    requires
        !is_reset_register(index),
        !is_serial_port(index),
    ensures
        register_after(camera::reset_ops(), index, before) == before,
{
    let a = camera::vector_ops(REV72A_RESET@);
    let b = seq![Op::Sleep { ms: camera::RESET_PAUSE }];
    let c = camera::vector_ops(REV72A_INIT_DATA1@);
    let d = camera::sensor_ops(REV72A_INIT_SENSOR1@);
    law_scripts_compose(a + b + c, d, index, before);
    law_scripts_compose(a + b, c, index, before);
    law_scripts_compose(a, b, index, before);
    lemma_untouched(a, index, before);
    lemma_untouched(b, index, before);
    lemma_untouched(c, index, before);
    law_sensor_scripts_use_serial_port_only(REV72A_INIT_SENSOR1@, index, before);
}

/// `start` touches only the reset registers, the serial port and the stream's own settings. It
/// does not give the bridge a frame geometry, so `init` has to run first, and it keeps the one
/// that `init` gave, so `init` need not run again.
pub proof fn law_start_keeps_other_registers(index: u16, before: u8)
    requires
        !is_reset_register(index),
        !is_serial_port(index),
        !is_stream_setting(index),
    ensures
        register_after(camera::start_ops(), index, before) == before,
{
    lemma_start_in_parts(index, before);
    lemma_reset_untouched(index, before);
}

/// `start` selects the capture mode and its clock, sets the white balance gains and gives the
/// go-ahead, whatever the registers held.
pub proof fn law_start_sets_stream(before: u8)
    ensures
        register_after(camera::start_ops(), 0x8500, before) == MODE,
        register_after(camera::start_ops(), 0x8700, before) == CLCK_FOR_MODE@[MODE as int],
        register_after(camera::start_ops(), 0x8702, before) == 0x81,
        register_after(camera::start_ops(), 0x8651, before) == 0x2c,
        register_after(camera::start_ops(), 0x8652, before) == 0x40,
        register_after(camera::start_ops(), 0x8653, before) == 0x7c,
        register_after(camera::start_ops(), 0x8654, before) == 0x40,
        register_after(camera::start_ops(), 0x8112, before) == 0x30,
{
    lemma_start_in_parts(0x8500, before);
    lemma_start_in_parts(0x8700, before);
    lemma_start_in_parts(0x8702, before);
    lemma_start_in_parts(0x8651, before);
    lemma_start_in_parts(0x8652, before);
    lemma_start_in_parts(0x8653, before);
    lemma_start_in_parts(0x8654, before);
    lemma_start_in_parts(0x8112, before);
}

/// `stop` withdraws the go-ahead and touches nothing else.
pub proof fn law_stop_touches_one_register(index: u16, before: u8)
    ensures
        register_after(camera::stop_ops(), index, before) == if index == 0x8112 {
            0x20
        } else {
            before
        },
{
    reveal_with_fuel(register_after, 2);
    assert(camera::stop_ops().drop_last() =~= Seq::<Op>::empty());
}

/// The scripts of a run of starts and stops, one after the other: `true` stands for a start,
/// `false` for a stop.
pub open spec fn restarts(run: Seq<bool>) -> Seq<Op>
    decreases run.len(),
{
    if run.len() == 0 {
        Seq::empty()
    } else if run.last() {
        restarts(run.drop_last()) + camera::start_ops()
    } else {
        restarts(run.drop_last()) + camera::stop_ops()
    }
}

/// However often the stream is started and stopped, in whatever order, registers that are neither
/// reset registers nor serial port nor stream settings keep what they held.
pub proof fn law_restarts_keep_other_registers(run: Seq<bool>, index: u16, before: u8)
    requires
        !is_reset_register(index),
        !is_serial_port(index),
        !is_stream_setting(index),
    ensures
        register_after(restarts(run), index, before) == before,
    decreases run.len(),
{
    if run.len() > 0 {
        let front = restarts(run.drop_last());
        law_restarts_keep_other_registers(run.drop_last(), index, before);
        law_scripts_compose(front, camera::start_ops(), index, before);
        law_scripts_compose(front, camera::stop_ops(), index, before);
        law_start_keeps_other_registers(index, before);
        law_stop_touches_one_register(index, before);
    }
}

/// After one `init` the stream can be started and stopped any number of times, in any order,
/// without another: the valid-pixel window and the memory buffer threshold stay, whatever the
/// registers held before `init`.
pub proof fn law_restarts_keep_geometry(run: Seq<bool>, before: u8)
    ensures
        register_after(camera::init_ops() + restarts(run), 0x865d, before) == 0xb0,
        register_after(camera::init_ops() + restarts(run), 0x865e, before) == 0x90,
        register_after(camera::init_ops() + restarts(run), 0x8406, before) == 0xe0,
{
    law_init_sets_geometry(before, before, before, before);
    law_scripts_compose(camera::init_ops(), restarts(run), 0x865d, before);
    law_scripts_compose(camera::init_ops(), restarts(run), 0x865e, before);
    law_scripts_compose(camera::init_ops(), restarts(run), 0x8406, before);
    law_restarts_keep_other_registers(run, 0x865d, 0xb0);
    law_restarts_keep_other_registers(run, 0x865e, 0x90);
    law_restarts_keep_other_registers(run, 0x8406, 0xe0);
}

/// A register holds what was last written to it; writes to other registers, pauses and handshakes
/// leave it alone.
pub proof fn law_register_holds_last_write(ops: Seq<Op>, op: Op, index: u16, before: u8)
    ensures
        register_after(Seq::empty(), index, before) == before,
        op matches Op::Write { index: i, value } ==> i == index ==> register_after(
            ops.push(op),
            index,
            before,
        ) == value,
        op matches Op::Write { index: i, value } ==> i != index ==> register_after(
            ops.push(op),
            index,
            before,
        ) == register_after(ops, index, before),
        !(op is Write) ==> register_after(ops.push(op), index, before) == register_after(
            ops,
            index,
            before,
        ),
{
    assert(ops.push(op).drop_last() =~= ops);
}

} // verus!
