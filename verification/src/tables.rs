//! Register tables of the Rev072A bridge and its sensor.
//!
//! The two kinds of table order their entries in opposite ways: an entry of a `DATA` or `RESET`
//! table is a value and then the bridge register it goes to, an entry of a `SENSOR` table is a
//! sensor register and then the value it gets.

use vstd::prelude::*;

verus! {

/// The capture mode: 352x288, raw SGBRG8 Bayer data. The bridge also knows the modes 1 (320x240),
/// 2 (176x144) and 3 (160x120).
pub const MODE: u8 = 0;

/// Master clock for each capture mode.
pub const CLCK_FOR_MODE: [u8; 4] = [0x27, 0x25, 0x22, 0x21];

/// Resets the bridge.
pub const REV72A_RESET: [[u16; 2]; 3] = [
    [0x0000, 0x8114],
    [0x0001, 0x8114],
    [0x0000, 0x8112],
];

/// First group of bridge settings.
pub const REV72A_INIT_DATA1: [[u16; 2]; 6] = [
    [0x0003, 0x8701], // PCLK clock delay adjustment
    [0x0001, 0x8703], // HSYNC from cmos inverted
    [0x0011, 0x8118], // enable and conf sensor
    [0x0001, 0x8118], // conf sensor
    [0x0092, 0x8804],
    [0x0010, 0x8802],
];

/// First group of sensor settings.
pub const REV72A_INIT_SENSOR1: [[u16; 2]; 12] = [
    [0x0001, 0x000d],
    [0x0002, 0x0018],
    [0x0004, 0x0165],
    [0x0005, 0x0021],
    [0x0007, 0x00aa],
    [0x0020, 0x1504],
    [0x0039, 0x0002],
    [0x0035, 0x0010],
    [0x0009, 0x1049],
    [0x0028, 0x000b],
    [0x003b, 0x000f],
    [0x003c, 0x0000],
];

/// Second group of bridge settings: frame geometry, white balance, image type.
pub const REV72A_INIT_DATA2: [[u16; 2]; 29] = [
    [0x0018, 0x8601], // pixel/line selection for color separation
    [0x0000, 0x8602], // optical black level for user setting
    [0x0060, 0x8604], // optical black horizontal offset
    [0x0002, 0x8605], // optical black vertical offset
    [0x0000, 0x8603], // non-automatic optical black level
    [0x0002, 0x865b], // horizontal offset for valid pixels
    [0x0000, 0x865f], // vertical valid pixels window (x2)
    [0x00b0, 0x865d], // horizontal valid pixels window (x2)
    [0x0090, 0x865e], // vertical valid lines window (x2)
    [0x00e0, 0x8406], // memory buffer threshold
    [0x0000, 0x8660], // compensation memory
    [0x0002, 0x8201], // output address for r/w serial EEPROM
    [0x0008, 0x8200], // clear valid bit for serial EEPROM
    [0x0001, 0x8200], // OprMode executed by hardware
    // white balance offsets
    [0x0000, 0x8611], // R
    [0x00fd, 0x8612], // Gr
    [0x0003, 0x8613], // B
    [0x0000, 0x8614], // Gb
    // white balance gains
    [0x0035, 0x8651], // R
    [0x0040, 0x8652], // Gr
    [0x005f, 0x8653], // B
    [0x0040, 0x8654], // Gb
    [0x0002, 0x8502], // max average bit rate
    [0x0011, 0x8802],
    [0x0087, 0x8700], // master clock
    [0x0081, 0x8702], // master clock output enable
    [0x0000, 0x8500], // image type: 352x288, no compression
    [0x0002, 0x865b], // horizontal offset for valid pixels
    [0x0003, 0x865c], // vertical offset for valid lines
];

/// Second group of sensor settings.
pub const REV72A_INIT_SENSOR2: [[u16; 2]; 7] = [
    [0x0003, 0x0121],
    [0x0004, 0x0165],
    [0x0005, 0x002f], // blanking control column
    [0x0006, 0x0000], // blanking mode row
    [0x000a, 0x0002],
    [0x0009, 0x1061], // exposure time && pixel clock
    [0x0035, 0x0014],
];

/// The camera captures in mode 0, and each mode has a master clock of its own.
pub proof fn law_mode_and_clocks()
    ensures
        MODE == 0,
        CLCK_FOR_MODE@ == seq![0x27u8, 0x25, 0x22, 0x21],
{
}

} // verus!
