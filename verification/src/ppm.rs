//! Saved pictures: binary PPM files, numbered in the order they are saved.

use vstd::arithmetic::power::pow;
use vstd::prelude::*;
use vstd::string::StringExecFns;

use crate::bayer;
use crate::bayer::{unpack_rgb, FRAME_SZ, HEIGHT, WIDTH};
use crate::frame::{FrameModel, FrameState};
use crate::text;
use crate::text::append_decimal;

verus! {

/// A picture ready to be written: the file's name, and its text header and binary body, which
/// follow each other in the file.
pub struct PpmFile {
    pub name: String,
    pub header: String,
    pub pixels: Vec<u8>,
}

/// The name of the picture with a given number.
pub open spec fn file_name(count: u32) -> Seq<char> {
    "frame_"@ + text::padded(count as nat) + ".ppm"@
}

/// The header of a picture: format, width, height and greatest channel value.
pub open spec fn header() -> Seq<char> {
    "P6\n"@ + text::decimal(WIDTH as nat) + " "@ + text::decimal(HEIGHT as nat) + "\n255\n"@
}

/// A channel of a 0RGB pixel: 0 is red, 1 is green, 2 is blue.
pub open spec fn channel(p: u32, c: int) -> u8 {
    if c == 0 {
        (p / 65536 % 256) as u8
    } else if c == 1 {
        (p / 256 % 256) as u8
    } else {
        (p % 256) as u8
    }
}

/// The body of a picture: red, green and blue of each pixel in turn.
pub open spec fn body(rgb: Seq<u32>) -> Seq<u8> {
    Seq::new(3 * rgb.len(), |i: int| channel(rgb[i / 3], i % 3))
}

/// The file name of the picture with number `count`: `frame_0000.ppm` for the first.
pub fn frame_name(count: u32) -> (name: String)
    ensures
        name@ == file_name(count),
{
    let mut s: String = String::new();
    s.append("frame_");
    let ghost front = s@;
    proof {
        text::lemma_decimal_len(count as nat);
        reveal_strlit("0");
        reveal_strlit("00");
        reveal_strlit("000");
    }
    if count < 10 {
        s.append("000");
    } else if count < 100 {
        s.append("00");
    } else if count < 1000 {
        s.append("0");
    }
    append_decimal(&mut s, count as u64);
    assert(s@ =~= front + text::padded(count as nat));
    s.append(".ppm");
    assert(s@ =~= file_name(count));
    s
}

/// The text in front of the pixels.
pub fn ppm_header() -> (h: String)
    ensures
        h@ == header(),
{
    let mut s: String = String::new();
    s.append("P6\n");
    append_decimal(&mut s, WIDTH as u64);
    s.append(" ");
    append_decimal(&mut s, HEIGHT as u64);
    s.append("\n255\n");
    assert(s@ =~= header());
    s
}

impl FrameState {
    /// The picture on show as a file to write.
    pub fn save_ppm(&self) -> (file: PpmFile)
        requires
            self.wf(),
        ensures
            file.name@ == file_name(self.count),
            file.header@ == header(),
            file.pixels@ == body(self.rgb@),
            file.pixels@.len() == 304128,
            forall|j: int|
                0 <= j < 304128 ==> #[trigger] file.pixels@[j] == (if j % 3 == 0 {
                    self.rgb@[j / 3] as int / 65536 % 256
                } else if j % 3 == 1 {
                    self.rgb@[j / 3] as int / 256 % 256
                } else {
                    self.rgb@[j / 3] as int % 256
                }),
    {
        let mut out: Vec<u8> = Vec::with_capacity(FRAME_SZ * 3);
        let mut i: usize = 0;
        while i < self.rgb.len()
            invariant
                i <= self.rgb.len(),
                out@ == body(self.rgb@).take(3 * i as int),
            decreases self.rgb.len() - i,
        {
            let (r, g, b) = unpack_rgb(self.rgb[i]);
            out.push(r);
            out.push(g);
            out.push(b);
            i = i + 1;
            assert(out@ =~= body(self.rgb@).take(3 * i as int));
        }
        assert(out@ =~= body(self.rgb@));
        PpmFile { name: frame_name(self.count), header: ppm_header(), pixels: out }
    }

    /// Takes how saving the picture went: whether its file was created, and whether header and
    /// pixels were then written in full. Only a picture that was written counts; after any other
    /// outcome the next picture gets the same number again. Tells whether to report success.
    pub fn save_finished(&mut self, created: bool, written: bool) -> (success: bool)
        requires
            created && written ==> old(self).count < u32::MAX,
        ensures
            success == (created && written),
            final(self)@ == old(self)@.after_save(created, written),
            final(self).count == (if created && written {
                old(self).count + 1
            } else {
                old(self).count as int
            }),
            final(self).buf@ == old(self).buf@,
            final(self).pos == old(self).pos,
            final(self).valid == old(self).valid,
            final(self).rgb@ == old(self).rgb@,
            final(self).seq == old(self).seq,
    {
        if created && written {
            self.count = self.count + 1;
            true
        } else {
            false
        }
    }
}

impl FrameModel {
    /// The state after an attempt to save the picture on show: one more picture if its file was
    /// both created and written, and otherwise the same state.
    pub open spec fn after_save(self, created: bool, written: bool) -> FrameModel {
        if created && written {
            FrameModel { count: (self.count + 1) as u32, ..self }
        } else {
            self
        }
    }

    /// The state after a run of attempts to save, each with whether the file was created and
    /// whether it was written.
    pub open spec fn after_saves(self, attempts: Seq<(bool, bool)>) -> FrameModel
        decreases attempts.len(),
    {
        if attempts.len() == 0 {
            self
        } else {
            self.after_saves(attempts.drop_last()).after_save(attempts.last().0, attempts.last().1)
        }
    }
}

/// How many of a run of attempts to save wrote a picture.
pub open spec fn pictures_written(attempts: Seq<(bool, bool)>) -> nat
    decreases attempts.len(),
{
    if attempts.len() == 0 {
        0
    } else {
        pictures_written(attempts.drop_last()) + if attempts.last().0 && attempts.last().1 {
            1nat
        } else {
            0nat
        }
    }
}

/// The count is the number of pictures written: attempts that could not create their file, or not
/// write all of it, leave it as it was. Saving changes nothing else.
pub proof fn law_count_is_pictures_written(s: FrameModel, attempts: Seq<(bool, bool)>)
    requires
        s.count + pictures_written(attempts) <= u32::MAX,
    ensures
        s.after_saves(attempts) == (FrameModel {
            count: (s.count + pictures_written(attempts)) as u32,
            ..s
        }),
    decreases attempts.len(),
{
    if attempts.len() > 0 {
        law_count_is_pictures_written(s, attempts.drop_last());
    }
}

/// After an attempt that wrote no complete picture the next one goes to the same file; after one
/// that did, it goes to another.
pub proof fn law_written_pictures_are_not_overwritten(s: FrameModel, created: bool, written: bool)
    requires
        s.count < u32::MAX,
    ensures
        file_name(s.after_save(created, written).count) == file_name(s.count) <==> !(created
            && written),
{
    if created && written && file_name(s.after_save(created, written).count) == file_name(s.count) {
        law_file_names_distinct(s.after_save(created, written).count, s.count);
    }
}

/// Pictures with different numbers go to different files.
pub proof fn law_file_names_distinct(a: u32, b: u32)
    requires
        file_name(a) == file_name(b),
    ensures
        a == b,
{
    let front = "frame_"@;
    let back = ".ppm"@;
    assert(file_name(a).len() - front.len() - back.len() == text::padded(a as nat).len());
    assert(file_name(b).len() - front.len() - back.len() == text::padded(b as nat).len());
    let k = text::padded(a as nat).len();
    assert(text::padded(a as nat) =~= file_name(a).subrange(front.len() as int, (front.len() + k) as int));
    assert(text::padded(b as nat) =~= file_name(b).subrange(front.len() as int, (front.len() + k) as int));
    text::law_padded_denotes(a as nat);
    text::law_padded_denotes(b as nat);
}

/// What is saved of a frame just put on show is, for each pixel, the red, green and blue sample
/// of its block.
pub proof fn law_saved_picture_shows_samples(s: FrameModel, y: int, x: int)
    requires
        s.wf(),
        0 <= y < HEIGHT,
        0 <= x < WIDTH,
    ensures
        body(s.emitted().rgb)[3 * (y * WIDTH + x)] == bayer::red(s.buf, y, x),
        body(s.emitted().rgb)[3 * (y * WIDTH + x) + 1] == bayer::green(s.buf, y, x),
        body(s.emitted().rgb)[3 * (y * WIDTH + x) + 2] == bayer::blue(s.buf, y, x),
{
    let i = y * WIDTH + x;
    assert(i / WIDTH as int == y && i % WIDTH as int == x);
    assert((3 * i) / 3 == i && (3 * i + 1) / 3 == i && (3 * i + 2) / 3 == i);
    assert(s.emitted().rgb[i] == bayer::pixel(s.buf, y, x));
    bayer::law_pack_then_unpack(
        bayer::red(s.buf, y, x),
        bayer::green(s.buf, y, x),
        bayer::blue(s.buf, y, x),
    );
}

/// A saved picture has three bytes for each pixel of the frame.
pub proof fn law_saved_picture_len(s: FrameModel)
    requires
        s.wf(),
    ensures
        body(s.rgb).len() == 3 * WIDTH * HEIGHT,
{
}

/// The body of a picture gives each pixel three bytes: what bits 16 to 23, then 8 to 15, then 0 to
/// 7 of its value hold.
pub proof fn law_body_gives_red_green_blue(rgb: Seq<u32>, i: int)
    requires
        0 <= i < rgb.len(),
    ensures
        body(rgb).len() == 3 * rgb.len(),
        body(rgb)[3 * i] == rgb[i] as int / 65536 % 256,
        body(rgb)[3 * i + 1] == rgb[i] as int / 256 % 256,
        body(rgb)[3 * i + 2] == rgb[i] as int % 256,
{
    assert((3 * i) / 3 == i && (3 * i + 1) / 3 == i && (3 * i + 2) / 3 == i);
}

/// A file name is the word `frame_`, the number in at least four digits, more only if it needs
/// them, and the ending `.ppm`.
pub proof fn law_file_name_shape(count: u32)
    ensures
        file_name(count).len() >= 14,
        file_name(count).take(6) == "frame_"@,
        file_name(count).skip(file_name(count).len() - 4) == ".ppm"@,
        count < pow(10, (file_name(count).len() - 10) as nat),
        file_name(count).len() > 14 ==> count >= pow(10, (file_name(count).len() - 11) as nat),
{
    reveal_strlit("frame_");
    reveal_strlit(".ppm");
    text::law_padded_length(count as nat);
    assert(file_name(count).take(6) =~= "frame_"@);
    assert(file_name(count).skip(file_name(count).len() - 4) =~= ".ppm"@);
}

/// The digit at a place of the number in a file name, counted from the right, is the number
/// divided by that power of ten, modulo ten.
pub proof fn law_file_name_spells_number(count: u32, k: nat)
    requires
        k < file_name(count).len() - 10,
    ensures
        file_name(count)[file_name(count).len() - 5 - k] as int == '0' as int + count as int / pow(
            10,
            k,
        ) % 10,
{
    reveal_strlit("frame_");
    reveal_strlit(".ppm");
    text::law_padded_places(count as nat, k);
}

/// The header announces a binary picture of 352 by 288 pixels with channels up to 255.
pub proof fn law_header_text()
    ensures
        header() == "P6\n352 288\n255\n"@,
{
    reveal_strlit("P6\n");
    reveal_strlit(" ");
    reveal_strlit("\n255\n");
    reveal_strlit("P6\n352 288\n255\n");
    reveal_with_fuel(text::decimal, 3);
    assert(header() =~= "P6\n352 288\n255\n"@);
}

/// A picture counts exactly when its file was created and written.
pub proof fn law_save_counts_written_pictures(s: FrameModel, created: bool, written: bool)
    requires
        s.count < u32::MAX,
    ensures
        created && written ==> s.after_save(created, written).count == s.count + 1,
        !(created && written) ==> s.after_save(created, written).count == s.count,
        s.after_save(created, written).buf == s.buf,
        s.after_save(created, written).pos == s.pos,
        s.after_save(created, written).valid == s.valid,
        s.after_save(created, written).rgb == s.rgb,
        s.after_save(created, written).seq == s.seq,
{
}

} // verus!
