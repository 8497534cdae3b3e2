//! Bringing the camera up and down, as scripts of bus operations.

use vstd::prelude::*;

use crate::tables::{
    CLCK_FOR_MODE, MODE, REV72A_INIT_DATA1, REV72A_INIT_DATA2, REV72A_INIT_SENSOR1,
    REV72A_INIT_SENSOR2, REV72A_RESET,
};

verus! {

/// How long the bridge gets to come out of reset, in milliseconds.
pub const RESET_PAUSE: u64 = 200;

/// One step of a script.
#[derive(Clone, Copy, Debug, PartialEq, Eq, Structural)]
pub enum Op {
    /// Write one byte to a bridge register.
    Write { index: u16, value: u8 },
    /// Wait until the sensor has taken the value for its register `reg`.
    Handshake { reg: u16 },
    /// Let some milliseconds pass.
    Sleep { ms: u64 },
}

/// A script for the camera, built up step by step.
pub struct Cam {
    pub ops: Vec<Op>,
}

/// The low byte of a word.
pub open spec fn low_byte(v: u16) -> u8 {
    (v % 256) as u8
}

/// The high byte of a word.
pub open spec fn high_byte(v: u16) -> u8 {
    (v / 256) as u8
}

/// A number modulo 256.
pub open spec fn wrap_byte(v: int) -> u8 {
    (v % 256) as u8
}

/// A quotient rounded towards zero.
pub open spec fn quotient(a: int, b: int) -> int {
    if a >= 0 {
        a / b
    } else {
        -((-a) / b)
    }
}

/// A single write, as a script.
pub open spec fn write_op(index: u16, value: u8) -> Seq<Op> {
    seq![Op::Write { index, value }]
}

/// A table of value and bridge register pairs, as a script.
pub open spec fn vector_ops(table: Seq<[u16; 2]>) -> Seq<Op> {
    Seq::new(
        table.len(),
        |i: int| Op::Write { index: table[i]@[1], value: low_byte(table[i]@[0]) },
    )
}

/// A write to a sensor register through the bridge's serial port, as a script.
pub open spec fn i2c_ops(value: u16, reg: u16) -> Seq<Op> {
    seq![
        Op::Write { index: 0x8801, value: low_byte(reg) },
        Op::Write { index: 0x8805, value: low_byte(value) },
        Op::Write { index: 0x8800, value: high_byte(value) },
        Op::Handshake { reg },
    ]
}

/// A table of sensor register and value pairs, as a script.
pub open spec fn sensor_ops(table: Seq<[u16; 2]>) -> Seq<Op>
    decreases table.len(),
{
    if table.len() == 0 {
        Seq::empty()
    } else {
        sensor_ops(table.drop_last()) + i2c_ops(table.last()@[1], table.last()@[0])
    }
}

/// The red gain for a white balance and a contrast.
pub open spec fn red_gain(white: int, contrast: int) -> int {
    0x20 + quotient(white * 3, 8) + (contrast - 0x20)
}

/// The blue gain for a white balance and a contrast.
pub open spec fn blue_gain(white: int, contrast: int) -> int {
    0x90 - quotient(white * 5, 8) + (contrast - 0x20)
}

/// White balance gains, as a script: the two greens, red, blue.
pub open spec fn white_ops(white: int, contrast: int) -> Seq<Op> {
    seq![
        Op::Write { index: 0x8652, value: wrap_byte(contrast + 0x20) },
        Op::Write { index: 0x8654, value: wrap_byte(contrast + 0x20) },
        Op::Write { index: 0x8651, value: wrap_byte(red_gain(white, contrast)) },
        Op::Write { index: 0x8653, value: wrap_byte(blue_gain(white, contrast)) },
    ]
}

/// Whether a number is an `i32`.
pub open spec fn is_i32(v: int) -> bool {
    i32::MIN <= v <= i32::MAX
}

/// Whether the gains for a white balance and a contrast can be computed in 32 bits.
pub open spec fn gains_fit(white: int, contrast: int) -> bool {
    &&& is_i32(white * 5)
    &&& is_i32(contrast - 0x20)
    &&& is_i32(contrast + 0x20)
    &&& is_i32(red_gain(white, contrast))
    &&& is_i32(blue_gain(white, contrast))
}

/// What `init` and `start` have in common: reset, and the first group of settings.
pub open spec fn reset_ops() -> Seq<Op> {
    vector_ops(REV72A_RESET@) + seq![Op::Sleep { ms: RESET_PAUSE }] + vector_ops(
        REV72A_INIT_DATA1@,
    ) + sensor_ops(REV72A_INIT_SENSOR1@)
}

/// The script of `init`.
pub open spec fn init_ops() -> Seq<Op> {
    reset_ops() + vector_ops(REV72A_INIT_DATA2@) + sensor_ops(REV72A_INIT_SENSOR2@) + write_op(
        0x8112,
        0x30,
    )
}

/// The script of `start`.
pub open spec fn start_ops() -> Seq<Op> {
    reset_ops() + write_op(0x8700, CLCK_FOR_MODE@[MODE as int]) + write_op(0x8702, 0x81) + write_op(
        0x8500,
        MODE,
    ) + sensor_ops(REV72A_INIT_SENSOR2@) + white_ops(0x20, 0x20) + write_op(0x8112, 0x30)
}

/// The script of `stop`.
pub open spec fn stop_ops() -> Seq<Op> {
    write_op(0x8112, 0x20)
}

impl View for Cam {
    type V = Seq<Op>;

    open spec fn view(&self) -> Seq<Op> {
        self.ops@
    }
}

impl Cam {
    /// An empty script.
    pub fn new() -> (cam: Self)
        ensures
            cam@ == Seq::<Op>::empty(),
    {
        Cam { ops: Vec::new() }
    }

    /// Adds a write of `value` to the bridge register `index`: one control transfer, as
    /// `control::write_setup` lays it out.
    pub fn reg_w(&mut self, index: u16, value: u8)
        ensures
            final(self)@ == old(self)@ + write_op(index, value),
    {
        self.ops.push(Op::Write { index, value });
        assert(self@ =~= old(self)@ + write_op(index, value));
    }

    /// Adds a pause.
    fn pause(&mut self, ms: u64)
        ensures
            final(self)@ == old(self)@ + seq![Op::Sleep { ms }],
    {
        self.ops.push(Op::Sleep { ms });
        assert(self@ =~= old(self)@ + seq![Op::Sleep { ms }]);
    }

    /// Adds the writes of a table of value and bridge register pairs.
    pub fn write_vector(&mut self, table: &[[u16; 2]])
        ensures
            final(self)@ == old(self)@ + vector_ops(table@),
    {
        let mut i: usize = 0;
        while i < table.len()
            invariant
                i <= table@.len(),
                self@ == old(self)@ + vector_ops(table@.take(i as int)),
            decreases table@.len() - i,
        {
            let value: u16 = table[i][0];
            let index: u16 = table[i][1];
            proof {
                assert(value as u8 == value % 256) by (bit_vector);
            }
            self.reg_w(index, value as u8);
            i = i + 1;
            assert(self@ =~= old(self)@ + vector_ops(table@.take(i as int)));
        }
        assert(table@.take(i as int) =~= table@);
    }

    /// Adds a write of `value` to the sensor register `reg`, and the wait for it to be taken.
    pub fn i2c_write(&mut self, value: u16, reg: u16)
        ensures
            final(self)@ == old(self)@ + i2c_ops(value, reg),
    {
        proof {
            assert(reg as u8 == reg % 256) by (bit_vector);
            assert(value as u8 == value % 256) by (bit_vector);
            assert((value >> 8) as u8 == value / 256) by (bit_vector);
        }
        self.reg_w(0x8801, reg as u8);
        self.reg_w(0x8805, value as u8);
        self.reg_w(0x8800, (value >> 8) as u8);
        self.ops.push(Op::Handshake { reg });
        assert(self@ =~= old(self)@ + i2c_ops(value, reg));
    }

    /// Adds the writes of a table of sensor register and value pairs.
    pub fn write_sensor(&mut self, table: &[[u16; 2]])
        ensures
            final(self)@ == old(self)@ + sensor_ops(table@),
    {
        let mut i: usize = 0;
        assert(self@ =~= old(self)@ + sensor_ops(table@.take(0)));
        while i < table.len()
            invariant
                i <= table@.len(),
                self@ == old(self)@ + sensor_ops(table@.take(i as int)),
            decreases table@.len() - i,
        {
            let ghost done = table@.take(i as int);
            let reg: u16 = table[i][0];
            let value: u16 = table[i][1];
            self.i2c_write(value, reg);
            i = i + 1;
            assert(table@.take(i as int).drop_last() =~= done);
            assert(self@ =~= old(self)@ + sensor_ops(table@.take(i as int)));
        }
        assert(table@.take(i as int) =~= table@);
    }

    /// Adds the writes of the white balance gains.
    pub fn set_white(&mut self, white: i32, contrast: i32)
        requires
            gains_fit(white as int, contrast as int),
        ensures
            final(self)@ == old(self)@ + white_ops(white as int, contrast as int),
    {
        let mut red: i32 = 0x20 + white * 3 / 8;
        let mut blue: i32 = 0x90 - white * 5 / 8;
        red = red + (contrast - 0x20);
        blue = blue + (contrast - 0x20);
        let green: i32 = contrast + 0x20;
        proof {
            assert(green as u8 as int == green as int % 256) by (bit_vector);
            assert(red as u8 as int == red as int % 256) by (bit_vector);
            assert(blue as u8 as int == blue as int % 256) by (bit_vector);
        }
        self.reg_w(0x8652, green as u8);
        self.reg_w(0x8654, green as u8);
        self.reg_w(0x8651, red as u8);
        self.reg_w(0x8653, blue as u8);
        assert(self@ =~= old(self)@ + white_ops(white as int, contrast as int));
    }

    /// Adds the script that must run once, before `start`: it carries the valid-pixel window, the
    /// memory buffer threshold and the image type. Without them the bridge has no frame geometry,
    /// so it streams pixels continuously and never marks the start of a frame.
    pub fn init(&mut self)
        ensures
            final(self)@ == old(self)@ + init_ops(),
    {
        self.write_vector(&REV72A_RESET);
        self.pause(RESET_PAUSE);
        self.write_vector(&REV72A_INIT_DATA1);
        self.write_sensor(&REV72A_INIT_SENSOR1);
        self.write_vector(&REV72A_INIT_DATA2);
        self.write_sensor(&REV72A_INIT_SENSOR2);
        self.reg_w(0x8112, 0x30);
        assert(self@ =~= old(self)@ + init_ops());
    }

    /// Adds the script that starts the stream.
    pub fn start(&mut self)
        ensures
            final(self)@ == old(self)@ + start_ops(),
    {
        self.write_vector(&REV72A_RESET);
        self.pause(RESET_PAUSE);
        self.write_vector(&REV72A_INIT_DATA1);
        self.write_sensor(&REV72A_INIT_SENSOR1);

        self.reg_w(0x8700, CLCK_FOR_MODE[MODE as usize]);
        self.reg_w(0x8702, 0x81);
        self.reg_w(0x8500, MODE);

        self.write_sensor(&REV72A_INIT_SENSOR2);
        self.set_white(0x20, 0x20);

        assert(0x10u8 | 0x20u8 == 0x30u8) by (bit_vector);
        self.reg_w(0x8112, 0x10 | 0x20);
        assert(self@ =~= old(self)@ + start_ops());
    }

    /// Adds the script that stops the stream.
    pub fn stop(&mut self)
        ensures
            final(self)@ == old(self)@ + stop_ops(),
    {
        self.reg_w(0x8112, 0x20);
    }
}

/// A script stands for its own operations.
pub proof fn law_script_stands_for_its_ops(cam: &Cam)
    ensures
        cam@ == cam.ops@,
{
}

/// A single write is one operation, of that byte to that register.
pub proof fn law_write_is_one_op(index: u16, value: u8)
    ensures
        write_op(index, value) == seq![Op::Write { index, value }],
{
}

/// Entry `i` of a bridge table writes the low byte of its first word to the register that its
/// second word names.
pub proof fn law_bridge_table_is_value_then_register(table: Seq<[u16; 2]>, i: int)
    requires
        0 <= i < table.len(),
    ensures
        vector_ops(table).len() == table.len(),
        vector_ops(table)[i] == (Op::Write {
            index: table[i]@[1],
            value: (table[i]@[0] % 256) as u8,
        }),
{
}

/// A sensor write puts the register's low byte, the value's low byte and the value's high byte into
/// three bridge registers, in this order, and then waits for that sensor register.
pub proof fn law_sensor_write_goes_through_serial_port(value: u16, reg: u16)
    ensures
        i2c_ops(value, reg) == seq![
            Op::Write { index: 0x8801, value: (reg % 256) as u8 },
            Op::Write { index: 0x8805, value: (value % 256) as u8 },
            Op::Write { index: 0x8800, value: (value / 256) as u8 },
            Op::Handshake { reg },
        ],
{
}

/// Entry `i` of a sensor table takes four operations, and gives its second word to the sensor
/// register that its first word names.
pub proof fn law_sensor_table_is_register_then_value(table: Seq<[u16; 2]>, i: int)
    requires
        0 <= i < table.len(),
    ensures
        sensor_ops(table).len() == 4 * table.len(),
        sensor_ops(table)[4 * i] == (Op::Write {
            index: 0x8801,
            value: (table[i]@[0] % 256) as u8,
        }),
        sensor_ops(table)[4 * i + 1] == (Op::Write {
            index: 0x8805,
            value: (table[i]@[1] % 256) as u8,
        }),
        sensor_ops(table)[4 * i + 2] == (Op::Write {
            index: 0x8800,
            value: (table[i]@[1] / 256) as u8,
        }),
        sensor_ops(table)[4 * i + 3] == (Op::Handshake { reg: table[i]@[0] }),
    decreases table.len(),
{
    let init = table.drop_last();
    if i < init.len() {
        law_sensor_table_is_register_then_value(init, i);
        assert(init[i] == table[i]);
    } else {
        if init.len() > 0 {
            law_sensor_table_is_register_then_value(init, 0);
        } else {
            assert(sensor_ops(init).len() == 0);
        }
        assert(table.last() == table[i]);
    }
}

/// A table without entries asks for nothing.
pub proof fn law_empty_tables(table: Seq<[u16; 2]>)
    requires
        table.len() == 0,
    ensures
        vector_ops(table) == Seq::<Op>::empty(),
        sensor_ops(table) == Seq::<Op>::empty(),
{
    assert(vector_ops(table) =~= Seq::<Op>::empty());
}

/// The gains go to the two greens, red and blue in this order. Green is 32 more than the contrast;
/// red is the contrast plus three eighths of the white balance, and blue is 112 more than the
/// contrast less five eighths of it, both eighths rounded towards zero; each is taken modulo 256.
pub proof fn law_white_balance_gains(white: int, contrast: int)
    ensures
        white_ops(white, contrast).len() == 4,
        white_ops(white, contrast)[0] == (Op::Write {
            index: 0x8652,
            value: ((contrast + 32) % 256) as u8,
        }),
        white_ops(white, contrast)[1] == (Op::Write {
            index: 0x8654,
            value: ((contrast + 32) % 256) as u8,
        }),
        white >= 0 ==> white_ops(white, contrast)[2] == (Op::Write {
            index: 0x8651,
            value: ((contrast + 3 * white / 8) % 256) as u8,
        }),
        white >= 0 ==> white_ops(white, contrast)[3] == (Op::Write {
            index: 0x8653,
            value: ((contrast + 112 - 5 * white / 8) % 256) as u8,
        }),
        white < 0 ==> white_ops(white, contrast)[2] == (Op::Write {
            index: 0x8651,
            value: ((contrast - 3 * (-white) / 8) % 256) as u8,
        }),
        white < 0 ==> white_ops(white, contrast)[3] == (Op::Write {
            index: 0x8653,
            value: ((contrast + 112 + 5 * (-white) / 8) % 256) as u8,
        }),
{
}

/// Eight more of white balance add three to red and take five from blue, and one more of contrast
/// adds one to both, while the white balance is on one side of zero.
pub proof fn law_gains_move_with_settings(white: int, contrast: int)
    requires
        white >= 0 || white + 8 <= 0,
    ensures
        red_gain(white + 8, contrast) == red_gain(white, contrast) + 3,
        blue_gain(white + 8, contrast) == blue_gain(white, contrast) - 5,
        red_gain(white, contrast + 1) == red_gain(white, contrast) + 1,
        blue_gain(white, contrast + 1) == blue_gain(white, contrast) + 1,
{
}

/// The gains can be computed in 32 bits exactly when five times the white balance, the contrast
/// with 32 added or taken away, and the two gains themselves fit.
pub proof fn law_gains_fit_means(white: int, contrast: int)
    ensures
        gains_fit(white, contrast) <==> {
            &&& -0x8000_0000 <= 5 * white <= 0x7fff_ffff
            &&& -0x8000_0000 <= contrast - 32
            &&& contrast + 32 <= 0x7fff_ffff
            &&& if white >= 0 {
                &&& contrast + 3 * white / 8 <= 0x7fff_ffff
                &&& -0x8000_0000 <= contrast + 112 - 5 * white / 8 <= 0x7fff_ffff
            } else {
                &&& -0x8000_0000 <= contrast - 3 * (-white) / 8
                &&& contrast + 112 + 5 * (-white) / 8 <= 0x7fff_ffff
            }
        },
{
}

/// The reset, write by write.
pub proof fn law_reset_table()
    ensures
        vector_ops(REV72A_RESET@) == seq![
            Op::Write { index: 0x8114, value: 0x00 },
            Op::Write { index: 0x8114, value: 0x01 },
            Op::Write { index: 0x8112, value: 0x00 },
        ],
{
}

/// The first group of bridge settings, write by write.
pub proof fn law_first_bridge_table()
    ensures
        vector_ops(REV72A_INIT_DATA1@) == seq![
            Op::Write { index: 0x8701, value: 0x03 },
            Op::Write { index: 0x8703, value: 0x01 },
            Op::Write { index: 0x8118, value: 0x11 },
            Op::Write { index: 0x8118, value: 0x01 },
            Op::Write { index: 0x8804, value: 0x92 },
            Op::Write { index: 0x8802, value: 0x10 },
        ],
{
}

/// The second group of bridge settings, write by write.
pub proof fn law_second_bridge_table()
    ensures
        vector_ops(REV72A_INIT_DATA2@) == seq![
            Op::Write { index: 0x8601, value: 0x18 },
            Op::Write { index: 0x8602, value: 0x00 },
            Op::Write { index: 0x8604, value: 0x60 },
            Op::Write { index: 0x8605, value: 0x02 },
            Op::Write { index: 0x8603, value: 0x00 },
            Op::Write { index: 0x865b, value: 0x02 },
            Op::Write { index: 0x865f, value: 0x00 },
            Op::Write { index: 0x865d, value: 0xb0 },
            Op::Write { index: 0x865e, value: 0x90 },
            Op::Write { index: 0x8406, value: 0xe0 },
            Op::Write { index: 0x8660, value: 0x00 },
            Op::Write { index: 0x8201, value: 0x02 },
            Op::Write { index: 0x8200, value: 0x08 },
            Op::Write { index: 0x8200, value: 0x01 },
            Op::Write { index: 0x8611, value: 0x00 },
            Op::Write { index: 0x8612, value: 0xfd },
            Op::Write { index: 0x8613, value: 0x03 },
            Op::Write { index: 0x8614, value: 0x00 },
            Op::Write { index: 0x8651, value: 0x35 },
            Op::Write { index: 0x8652, value: 0x40 },
            Op::Write { index: 0x8653, value: 0x5f },
            Op::Write { index: 0x8654, value: 0x40 },
            Op::Write { index: 0x8502, value: 0x02 },
            Op::Write { index: 0x8802, value: 0x11 },
            Op::Write { index: 0x8700, value: 0x87 },
            Op::Write { index: 0x8702, value: 0x81 },
            Op::Write { index: 0x8500, value: 0x00 },
            Op::Write { index: 0x865b, value: 0x02 },
            Op::Write { index: 0x865c, value: 0x03 },
        ],
{
}

/// The first group of sensor settings, write by write: value, then register.
pub proof fn law_first_sensor_table()
    ensures
        sensor_ops(REV72A_INIT_SENSOR1@) == i2c_ops(0x000d, 0x01)
            + i2c_ops(0x0018, 0x02)
            + i2c_ops(0x0165, 0x04)
            + i2c_ops(0x0021, 0x05)
            + i2c_ops(0x00aa, 0x07)
            + i2c_ops(0x1504, 0x20)
            + i2c_ops(0x0002, 0x39)
            + i2c_ops(0x0010, 0x35)
            + i2c_ops(0x1049, 0x09)
            + i2c_ops(0x000b, 0x28)
            + i2c_ops(0x000f, 0x3b)
            + i2c_ops(0x0000, 0x3c),
{
    let t = REV72A_INIT_SENSOR1@;
    assert(t.take(12) =~= t);
    assert(sensor_ops(t.take(0)) =~= Seq::<Op>::empty());
    assert(t.take(1).drop_last() =~= t.take(0));
    assert(sensor_ops(t.take(1)) == sensor_ops(t.take(0)) + i2c_ops(0x000d, 0x01));
    assert(sensor_ops(t.take(1)) =~= i2c_ops(0x000d, 0x01));
    assert(t.take(2).drop_last() =~= t.take(1));
    assert(sensor_ops(t.take(2)) == sensor_ops(t.take(1)) + i2c_ops(0x0018, 0x02));
    assert(t.take(3).drop_last() =~= t.take(2));
    assert(sensor_ops(t.take(3)) == sensor_ops(t.take(2)) + i2c_ops(0x0165, 0x04));
    assert(t.take(4).drop_last() =~= t.take(3));
    assert(sensor_ops(t.take(4)) == sensor_ops(t.take(3)) + i2c_ops(0x0021, 0x05));
    assert(t.take(5).drop_last() =~= t.take(4));
    assert(sensor_ops(t.take(5)) == sensor_ops(t.take(4)) + i2c_ops(0x00aa, 0x07));
    assert(t.take(6).drop_last() =~= t.take(5));
    assert(sensor_ops(t.take(6)) == sensor_ops(t.take(5)) + i2c_ops(0x1504, 0x20));
    assert(t.take(7).drop_last() =~= t.take(6));
    assert(sensor_ops(t.take(7)) == sensor_ops(t.take(6)) + i2c_ops(0x0002, 0x39));
    assert(t.take(8).drop_last() =~= t.take(7));
    assert(sensor_ops(t.take(8)) == sensor_ops(t.take(7)) + i2c_ops(0x0010, 0x35));
    assert(t.take(9).drop_last() =~= t.take(8));
    assert(sensor_ops(t.take(9)) == sensor_ops(t.take(8)) + i2c_ops(0x1049, 0x09));
    assert(t.take(10).drop_last() =~= t.take(9));
    assert(sensor_ops(t.take(10)) == sensor_ops(t.take(9)) + i2c_ops(0x000b, 0x28));
    assert(t.take(11).drop_last() =~= t.take(10));
    assert(sensor_ops(t.take(11)) == sensor_ops(t.take(10)) + i2c_ops(0x000f, 0x3b));
    assert(t.take(12).drop_last() =~= t.take(11));
    assert(sensor_ops(t.take(12)) == sensor_ops(t.take(11)) + i2c_ops(0x0000, 0x3c));
}

/// The second group of sensor settings, write by write: value, then register.
pub proof fn law_second_sensor_table()
    ensures
        sensor_ops(REV72A_INIT_SENSOR2@) == i2c_ops(0x0121, 0x03)
            + i2c_ops(0x0165, 0x04)
            + i2c_ops(0x002f, 0x05)
            + i2c_ops(0x0000, 0x06)
            + i2c_ops(0x0002, 0x0a)
            + i2c_ops(0x1061, 0x09)
            + i2c_ops(0x0014, 0x35),
{
    let t = REV72A_INIT_SENSOR2@;
    assert(t.take(7) =~= t);
    assert(sensor_ops(t.take(0)) =~= Seq::<Op>::empty());
    assert(t.take(1).drop_last() =~= t.take(0));
    assert(sensor_ops(t.take(1)) == sensor_ops(t.take(0)) + i2c_ops(0x0121, 0x03));
    assert(sensor_ops(t.take(1)) =~= i2c_ops(0x0121, 0x03));
    assert(t.take(2).drop_last() =~= t.take(1));
    assert(sensor_ops(t.take(2)) == sensor_ops(t.take(1)) + i2c_ops(0x0165, 0x04));
    assert(t.take(3).drop_last() =~= t.take(2));
    assert(sensor_ops(t.take(3)) == sensor_ops(t.take(2)) + i2c_ops(0x002f, 0x05));
    assert(t.take(4).drop_last() =~= t.take(3));
    assert(sensor_ops(t.take(4)) == sensor_ops(t.take(3)) + i2c_ops(0x0000, 0x06));
    assert(t.take(5).drop_last() =~= t.take(4));
    assert(sensor_ops(t.take(5)) == sensor_ops(t.take(4)) + i2c_ops(0x0002, 0x0a));
    assert(t.take(6).drop_last() =~= t.take(5));
    assert(sensor_ops(t.take(6)) == sensor_ops(t.take(5)) + i2c_ops(0x1061, 0x09));
    assert(t.take(7).drop_last() =~= t.take(6));
    assert(sensor_ops(t.take(7)) == sensor_ops(t.take(6)) + i2c_ops(0x0014, 0x35));
}

/// `init` resets the bridge, waits 200 ms, runs the first group of bridge and sensor settings and
/// then the second, and ends by writing 0x30 to 0x8112.
pub proof fn law_init_order()
    ensures
        init_ops() == vector_ops(REV72A_RESET@) + seq![Op::Sleep { ms: 200 }] + vector_ops(
            REV72A_INIT_DATA1@,
        ) + sensor_ops(REV72A_INIT_SENSOR1@) + vector_ops(REV72A_INIT_DATA2@) + sensor_ops(
            REV72A_INIT_SENSOR2@,
        ) + seq![Op::Write { index: 0x8112, value: 0x30 }],
        init_ops().len() == 3 + 1 + 6 + 48 + 29 + 28 + 1,
{
    law_sensor_table_is_register_then_value(REV72A_INIT_SENSOR1@, 0);
    law_sensor_table_is_register_then_value(REV72A_INIT_SENSOR2@, 0);
}

/// `start` resets the bridge, waits 200 ms, runs the first group of bridge and sensor settings,
/// selects the clock 0x27 of capture mode 0 and the mode, runs the second group of sensor settings,
/// sets the white balance gains, and ends with the go-ahead 0x30 to 0x8112.
pub proof fn law_start_order()
    ensures
        start_ops() == vector_ops(REV72A_RESET@) + seq![Op::Sleep { ms: 200 }] + vector_ops(
            REV72A_INIT_DATA1@,
        ) + sensor_ops(REV72A_INIT_SENSOR1@) + seq![
            Op::Write { index: 0x8700, value: 0x27 },
            Op::Write { index: 0x8702, value: 0x81 },
            Op::Write { index: 0x8500, value: 0x00 },
        ] + sensor_ops(REV72A_INIT_SENSOR2@) + seq![
            Op::Write { index: 0x8652, value: 0x40 },
            Op::Write { index: 0x8654, value: 0x40 },
            Op::Write { index: 0x8651, value: 0x2c },
            Op::Write { index: 0x8653, value: 0x7c },
            Op::Write { index: 0x8112, value: 0x30 },
        ],
        start_ops().len() == 3 + 1 + 6 + 48 + 3 + 28 + 5,
{
    law_sensor_table_is_register_then_value(REV72A_INIT_SENSOR1@, 0);
    law_sensor_table_is_register_then_value(REV72A_INIT_SENSOR2@, 0);
    law_white_balance_gains(0x20, 0x20);
    assert(white_ops(0x20, 0x20) =~= seq![
        Op::Write { index: 0x8652, value: 0x40 },
        Op::Write { index: 0x8654, value: 0x40 },
        Op::Write { index: 0x8651, value: 0x2c },
        Op::Write { index: 0x8653, value: 0x7c },
    ]);
    assert(start_ops() =~= vector_ops(REV72A_RESET@) + seq![Op::Sleep { ms: 200 }] + vector_ops(
        REV72A_INIT_DATA1@,
    ) + sensor_ops(REV72A_INIT_SENSOR1@) + seq![
        Op::Write { index: 0x8700, value: 0x27 },
        Op::Write { index: 0x8702, value: 0x81 },
        Op::Write { index: 0x8500, value: 0x00 },
    ] + sensor_ops(REV72A_INIT_SENSOR2@) + seq![
        Op::Write { index: 0x8652, value: 0x40 },
        Op::Write { index: 0x8654, value: 0x40 },
        Op::Write { index: 0x8651, value: 0x2c },
        Op::Write { index: 0x8653, value: 0x7c },
        Op::Write { index: 0x8112, value: 0x30 },
    ]);
}

/// `stop` writes 0x20 to 0x8112, once.
pub proof fn law_stop_order()
    ensures
        stop_ops() == seq![Op::Write { index: 0x8112, value: 0x20 }],
{
}

} // verus!
