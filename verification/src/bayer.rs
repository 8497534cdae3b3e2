//! The sensor's geometry and its GBRG colour mosaic.

use vstd::prelude::*;

verus! {

/// Pixels per line in capture mode 0.
pub const WIDTH: usize = 352;

/// Lines per frame in capture mode 0.
pub const HEIGHT: usize = 288;

/// Bytes of one raw frame: one byte of Bayer data per pixel.
pub const FRAME_SZ: usize = WIDTH * HEIGHT;

/// The raw byte that line `y` and column `x` measured.
pub open spec fn site(buf: Seq<u8>, y: int, x: int) -> u8 {
    buf[y * WIDTH + x]
}

/// The green sample of the 2x2 block that holds `(y, x)`: its top left site.
pub open spec fn green(buf: Seq<u8>, y: int, x: int) -> u8 {
    site(buf, y - y % 2, x - x % 2)
}

/// The blue sample of the 2x2 block that holds `(y, x)`: its top right site.
pub open spec fn blue(buf: Seq<u8>, y: int, x: int) -> u8 {
    site(buf, y - y % 2, x - x % 2 + 1)
}

/// The red sample of the 2x2 block that holds `(y, x)`: its bottom left site.
pub open spec fn red(buf: Seq<u8>, y: int, x: int) -> u8 {
    site(buf, y - y % 2 + 1, x - x % 2)
}

/// A colour in 0RGB layout: red in bits 16 to 23, green in 8 to 15, blue in 0 to 7.
pub open spec fn rgb_value(r: u8, g: u8, b: u8) -> u32 {
    (r * 65536 + g * 256 + b) as u32
}

/// The displayed pixel at line `y` and column `x`.
pub open spec fn pixel(buf: Seq<u8>, y: int, x: int) -> u32 {
    rgb_value(red(buf, y, x), green(buf, y, x), blue(buf, y, x))
}

/// The displayed picture, line after line, of one raw frame.
pub open spec fn debayer(buf: Seq<u8>) -> Seq<u32> {
    Seq::new(FRAME_SZ as nat, |i: int| pixel(buf, i / WIDTH as int, i % WIDTH as int))
}

/// Packs three channels into 0RGB layout.
pub fn pack_rgb(r: u8, g: u8, b: u8) -> (p: u32)
    ensures
        p == rgb_value(r, g, b),
        p == r * 65536 + g * 256 + b,
{
    let (r, g, b): (u32, u32, u32) = (r as u32, g as u32, b as u32);
    proof {
        assert(((r << 16) | (g << 8) | b) == r * 65536 + g * 256 + b) by (bit_vector)
            requires
                r < 256,
                g < 256,
                b < 256,
        ;
    }
    (r << 16) | (g << 8) | b
}

/// Splits a 0RGB pixel into its red, green and blue channels.
pub fn unpack_rgb(p: u32) -> (c: (u8, u8, u8))
    ensures
        c.0 == p / 65536 % 256,
        c.1 == p / 256 % 256,
        c.2 == p % 256,
{
    proof {
        assert(((p >> 16) as u8) == p / 65536 % 256) by (bit_vector);
        assert(((p >> 8) as u8) == p / 256 % 256) by (bit_vector);
        assert((p as u8) == p % 256) by (bit_vector);
    }
    ((p >> 16) as u8, (p >> 8) as u8, p as u8)
}

/// A packed pixel splits back into the channels it was packed from.
pub proof fn law_pack_then_unpack(r: u8, g: u8, b: u8)
    ensures
        rgb_value(r, g, b) / 65536 % 256 == r,
        rgb_value(r, g, b) / 256 % 256 == g,
        rgb_value(r, g, b) % 256 == b,
{
}

/// All four pixels of a 2x2 block show one colour, so a frame carries a quarter as many distinct
/// colour samples as it has pixels.
pub proof fn law_block_shares_one_colour(buf: Seq<u8>, by: int, bx: int, dy: int, dx: int)
    requires
        0 <= by < HEIGHT as int / 2,
        0 <= bx < WIDTH as int / 2,
        0 <= dy < 2,
        0 <= dx < 2,
    ensures
        debayer(buf)[(2 * by + dy) * WIDTH + 2 * bx + dx] == rgb_value(
            site(buf, 2 * by + 1, 2 * bx),
            site(buf, 2 * by, 2 * bx),
            site(buf, 2 * by, 2 * bx + 1),
        ),
{
    let y = 2 * by + dy;
    let x = 2 * bx + dx;
    let i = y * WIDTH + x;
    assert(i / WIDTH as int == y && i % WIDTH as int == x);
    assert(y - y % 2 == 2 * by && x - x % 2 == 2 * bx);
}

/// Every displayed pixel leaves its top byte clear.
pub proof fn law_top_byte_clear(buf: Seq<u8>, i: int)
    requires
        0 <= i < FRAME_SZ,
    ensures
        debayer(buf)[i] < 0x100_0000,
{
}

/// Frames that agree on every site that a block samples look the same: the fourth site of a
/// block, its bottom right green, is never shown.
pub proof fn law_second_green_unused(a: Seq<u8>, b: Seq<u8>)
    requires
        forall|y: int, x: int|
            0 <= y < HEIGHT && 0 <= x < WIDTH && !(y % 2 == 1 && x % 2 == 1) ==> #[trigger] site(
                a,
                y,
                x,
            ) == site(b, y, x),
    ensures
        debayer(a) == debayer(b),
{
    assert forall|i: int| 0 <= i < FRAME_SZ implies debayer(a)[i] == debayer(b)[i] by {
        let y = i / WIDTH as int;
        let x = i % WIDTH as int;
        assert(0 <= y < HEIGHT && 0 <= x < WIDTH);
        let y0 = y - y % 2;
        let x0 = x - x % 2;
        assert(site(a, y0, x0) == site(b, y0, x0));
        assert(site(a, y0, x0 + 1) == site(b, y0, x0 + 1));
        assert(site(a, y0 + 1, x0) == site(b, y0 + 1, x0));
    }
    assert(debayer(a) =~= debayer(b));
}

/// A frame is 288 lines of 352 pixels, one byte each.
pub proof fn law_frame_geometry()
    ensures
        WIDTH == 352,
        HEIGHT == 288,
        FRAME_SZ == 101376,
{
}

/// The pixel at line `y` and column `x` shows the bytes that three sites of its block measured:
/// red below left, green above left, blue above right.
pub proof fn law_pixel_shows_its_block(buf: Seq<u8>, y: int, x: int)
    requires
        0 <= y < 288,
        0 <= x < 352,
    ensures
        debayer(buf).len() == 101376,
        debayer(buf)[y * 352 + x] == buf[(y - y % 2 + 1) * 352 + (x - x % 2)] * 65536 + buf[(y - y
            % 2) * 352 + (x - x % 2)] * 256 + buf[(y - y % 2) * 352 + (x - x % 2) + 1],
{
    let i = y * 352 + x;
    assert(i / 352 == y && i % 352 == x);
}

} // verus!
