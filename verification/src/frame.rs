//! Frame assembly.
//!
//! Each isochronous packet starts with a one-byte sequence number:
//!
//! - `0x00` starts a frame and is followed by a 16-byte header to skip,
//! - `0xff` marks an empty packet, which is discarded,
//! - anything else continues the frame under way.

use vstd::prelude::*;

use crate::bayer;
use crate::bayer::{pack_rgb, FRAME_SZ, HEIGHT, WIDTH};

verus! {

/// Isochronous transfer has no retransmission, so lost packets are routine. A frame this full is
/// shown rather than discarded: the missing tail keeps the previous frame's pixels for one frame,
/// which reads as a brief smear rather than as a halved frame rate.
pub const MIN_FRAME_FILL: usize = FRAME_SZ * 7 / 8;

/// Sequence number of a packet that starts a frame.
pub const START_OF_FRAME: u8 = 0x00;

/// Sequence number of a packet that carries nothing.
pub const EMPTY_PACKET: u8 = 0xff;

/// Length of the header between the sequence number and the pixels of a start-of-frame packet.
pub const HEADER_LEN: usize = 16;

/// The bit of the header's second byte that announces compressed data.
pub const COMPRESSED_BIT: u8 = 0x10;

/// A frame under assembly, and the last frame that was shown.
pub struct FrameState {
    /// Raw Bayer bytes of the frame under assembly.
    pub buf: Vec<u8>,
    /// How many bytes of the frame under assembly have arrived.
    pub pos: usize,
    /// Whether a frame is under assembly at all.
    pub valid: bool,
    /// How many pictures have been written, which is also the number in the next file name.
    pub count: u32,
    /// The last frame shown, in 0RGB layout.
    pub rgb: Vec<u32>,
    /// How many frames have been shown, wrapping.
    pub seq: u64,
}

/// What a `FrameState` stands for.
#[verifier::ext_equal]
pub struct FrameModel {
    pub buf: Seq<u8>,
    pub pos: int,
    pub valid: bool,
    pub count: u32,
    pub rgb: Seq<u32>,
    pub seq: u64,
}

/// `buf` with `bytes` laid over it from position `at` on.
pub open spec fn overlay(buf: Seq<u8>, at: int, bytes: Seq<u8>) -> Seq<u8> {
    Seq::new(
        buf.len(),
        |i: int|
            if at <= i < at + bytes.len() {
                bytes[i - at]
            } else {
                buf[i]
            },
    )
}

/// The number that follows `seq`, wrapping to zero.
pub open spec fn next_seq(seq: u64) -> u64 {
    if seq == u64::MAX {
        0
    } else {
        (seq + 1) as u64
    }
}

/// Whether a packet starts a frame.
pub open spec fn starts_frame(data: Seq<u8>) -> bool {
    data.len() > 0 && data[0] == START_OF_FRAME
}

/// Whether a packet starts a frame whose data is announced as compressed.
pub open spec fn starts_compressed(data: Seq<u8>) -> bool {
    starts_frame(data) && data.len() >= 3 && data[2] & COMPRESSED_BIT != 0
}

/// Whether a packet starts a frame that can be assembled: its header is complete and announces
/// raw data.
pub open spec fn starts_raw_frame(data: Seq<u8>) -> bool {
    starts_frame(data) && data.len() >= 1 + HEADER_LEN && data[2] & COMPRESSED_BIT == 0
}

/// The pixels that a packet carries to the frame under way, when it starts none.
pub open spec fn continued(data: Seq<u8>) -> Seq<u8> {
    if data.len() == 0 || data[0] == EMPTY_PACKET {
        Seq::empty()
    } else {
        data.skip(1)
    }
}

/// The pixels that a start-of-frame packet carries behind its header.
pub open spec fn opening(data: Seq<u8>) -> Seq<u8> {
    data.skip(1 + HEADER_LEN as int)
}

/// The pixels that a run of packets carries to the frame under way, when none of them starts one.
pub open spec fn carried(packets: Seq<Seq<u8>>) -> Seq<u8>
    decreases packets.len(),
{
    if packets.len() == 0 {
        Seq::empty()
    } else {
        carried(packets.drop_last()) + continued(packets.last())
    }
}

/// Whether no packet of a run starts a frame.
pub open spec fn starts_none(packets: Seq<Seq<u8>>) -> bool {
    forall|i: int| 0 <= i < packets.len() ==> !starts_frame(#[trigger] packets[i])
}

/// The smaller of two numbers.
pub open spec fn smaller(a: int, b: int) -> int {
    if a <= b {
        a
    } else {
        b
    }
}

impl FrameModel {
    /// Both buffers hold exactly one frame, and the write position lies within it.
    pub open spec fn wf(self) -> bool {
        &&& self.buf.len() == FRAME_SZ
        &&& self.rgb.len() == FRAME_SZ
        &&& 0 <= self.pos <= FRAME_SZ
    }

    /// The state before anything has arrived.
    pub open spec fn initial() -> FrameModel {
        FrameModel {
            buf: Seq::new(FRAME_SZ as nat, |i: int| 0u8),
            pos: 0,
            valid: false,
            count: 0,
            rgb: Seq::new(FRAME_SZ as nat, |i: int| 0u32),
            seq: 0,
        }
    }

    /// The state after the assembled bytes have been put on show.
    pub open spec fn emitted(self) -> FrameModel {
        FrameModel { rgb: bayer::debayer(self.buf), seq: next_seq(self.seq), ..self }
    }

    /// The state after as much of `body` as fits has been stored.
    pub open spec fn stored(self, body: Seq<u8>) -> FrameModel {
        let take = smaller(body.len() as int, FRAME_SZ - self.pos);
        FrameModel {
            buf: overlay(self.buf, self.pos, body.take(take)),
            pos: self.pos + take,
            ..self
        }
    }

    /// Whether enough of the frame under way has arrived to show it.
    pub open spec fn showable(self) -> bool {
        self.valid && self.pos >= MIN_FRAME_FILL
    }

    /// The state after the frame under way has ended.
    pub open spec fn ended(self) -> FrameModel {
        if self.showable() {
            self.emitted()
        } else {
            self
        }
    }

    /// The state after one packet.
    pub open spec fn after_packet(self, data: Seq<u8>) -> FrameModel {
        if starts_frame(data) {
            let opened = FrameModel { pos: 0, valid: starts_raw_frame(data), ..self.ended() };
            if starts_raw_frame(data) {
                opened.stored(opening(data))
            } else {
                opened
            }
        } else if self.valid {
            self.stored(continued(data))
        } else {
            self
        }
    }

    /// The state after a run of packets, in order.
    pub open spec fn after_packets(self, packets: Seq<Seq<u8>>) -> FrameModel
        decreases packets.len(),
    {
        if packets.len() == 0 {
            self
        } else {
            self.after_packets(packets.drop_last()).after_packet(packets.last())
        }
    }
}

impl View for FrameState {
    type V = FrameModel;

    open spec fn view(&self) -> FrameModel {
        FrameModel {
            buf: self.buf@,
            pos: self.pos as int,
            valid: self.valid,
            count: self.count,
            rgb: self.rgb@,
            seq: self.seq,
        }
    }
}

impl FrameState {
    /// The state's invariant.
    pub open spec fn wf(&self) -> bool {
        self@.wf()
    }

    /// A state in which nothing has arrived: black picture, no frame under way.
    pub fn new() -> (s: Self)
        ensures
            s.wf(),
            s@ == FrameModel::initial(),
            s.buf@.len() == 101376,
            forall|i: int| 0 <= i < 101376 ==> #[trigger] s.buf@[i] == 0,
            s.rgb@.len() == 101376,
            forall|i: int| 0 <= i < 101376 ==> #[trigger] s.rgb@[i] == 0,
            s.pos == 0,
            !s.valid,
            s.count == 0,
            s.seq == 0,
    {
        FrameState {
            buf: vec![0u8; FRAME_SZ],
            pos: 0,
            valid: false,
            count: 0,
            rgb: vec![0u32; FRAME_SZ],
            seq: 0,
        }
    }

    /// Takes one packet, and tells whether it starts a frame that is unexpectedly announced as
    /// compressed.
    pub fn packet(&mut self, data: &[u8]) -> (compressed: bool)
        requires
            old(self).wf(),
        ensures
            final(self).wf(),
            final(self)@ == old(self)@.after_packet(data@),
            compressed == starts_compressed(data@),
            compressed == (data@.len() >= 3 && data@[0] == 0x00 && data@[2] & 0x10 != 0),
            final(self).count == old(self).count,
            !compressed && data@.len() >= 17 && data@[0] == 0x00 ==> {
                &&& final(self).valid
                &&& final(self).pos == (if data@.len() - 17 <= 101376 {
                    data@.len() - 17
                } else {
                    101376
                })
                &&& forall|k: int|
                    0 <= k < final(self).pos ==> #[trigger] final(self).buf@[k] == data@[17 + k]
            },
    {
        if data.is_empty() {
            assert(self@ == old(self)@.stored(continued(data@)));
            return false;
        }
        let seq: u8 = data[0];

        if seq == EMPTY_PACKET {
            assert(self@ == old(self)@.stored(continued(data@)));
            return false;
        }
        let mut body: &[u8] = &data[1..data.len()];

        if seq == START_OF_FRAME {
            if self.valid && self.pos >= MIN_FRAME_FILL {
                self.emit();
            }
            self.pos = 0;
            self.valid = true;

            if body.len() < 2 {
                self.valid = false;
                return false;
            }
            if body[1] & COMPRESSED_BIT != 0 {
                self.valid = false;
                return true;
            }
            if body.len() < HEADER_LEN {
                self.valid = false;
                return false;
            }
            body = &body[HEADER_LEN..body.len()];
            assert(body@ =~= opening(data@));
        } else {
            assert(body@ =~= continued(data@));
        }

        if !self.valid {
            return false;
        }
        self.store(body);
        false
    }

    /// Copies as much of `body` as still fits behind what has arrived.
    fn store(&mut self, body: &[u8])
        requires
            old(self).wf(),
        ensures
            final(self).wf(),
            final(self)@ == old(self)@.stored(body@),
    {
        let room: usize = FRAME_SZ - self.pos;
        let take: usize = if body.len() <= room {
            body.len()
        } else {
            room
        };
        let ghost before = self@;
        let mut i: usize = 0;
        while i < take
            invariant
                i <= take,
                take <= body.len(),
                take <= FRAME_SZ - before.pos,
                before.wf(),
                self@ == (FrameModel { buf: overlay(before.buf, before.pos, body@.take(i as int)), ..before }),
            decreases take - i,
        {
            self.buf[self.pos + i] = body[i];
            i = i + 1;
            assert(self.buf@ =~= overlay(before.buf, before.pos, body@.take(i as int)));
        }
        self.pos = self.pos + take;
    }

    /// Puts the assembled bytes on show: a nearest-neighbour reconstruction that gives all four
    /// pixels of a 2x2 block the block's one red, one blue and first green sample.
    pub fn emit(&mut self)
        requires
            old(self).wf(),
        ensures
            final(self).wf(),
            final(self)@ == old(self)@.emitted(),
            final(self).buf@ == old(self).buf@,
            final(self).pos == old(self).pos,
            final(self).valid == old(self).valid,
            final(self).count == old(self).count,
            final(self).seq == (old(self).seq + 1) % 0x1_0000_0000_0000_0000,
            forall|i: int|
                0 <= i < 101376 ==> #[trigger] final(self).rgb@[i] == old(self).buf@[(i / 352 / 2
                    * 2 + 1) * 352 + i % 352 / 2 * 2] * 65536 + old(self).buf@[(i / 352 / 2 * 2)
                    * 352 + i % 352 / 2 * 2] * 256 + old(self).buf@[(i / 352 / 2 * 2) * 352 + i
                    % 352 / 2 * 2 + 1],
    {
        let ghost before = self@;
        let mut y: usize = 0;
        while y < HEIGHT
            invariant
                y <= HEIGHT,
                before.wf(),
                self@ == (FrameModel { rgb: self.rgb@, ..before }),
                self.rgb@.len() == FRAME_SZ,
                forall|i: int| 0 <= i < y * WIDTH ==> self.rgb@[i] == bayer::debayer(before.buf)[i],
            decreases HEIGHT - y,
        {
            let yc: usize = y & !1;
            assert((y & !1usize) == y - y % 2) by (bit_vector);
            let mut x: usize = 0;
            while x < WIDTH
                invariant
                    x <= WIDTH,
                    y < HEIGHT,
                    yc == y - y % 2,
                    before.wf(),
                    self@ == (FrameModel { rgb: self.rgb@, ..before }),
                    self.rgb@.len() == FRAME_SZ,
                    forall|i: int|
                        0 <= i < y * WIDTH + x ==> self.rgb@[i] == bayer::debayer(before.buf)[i],
                decreases WIDTH - x,
            {
                let xc: usize = x & !1;
                assert((x & !1usize) == x - x % 2) by (bit_vector);
                let g: u8 = self.buf[yc * WIDTH + xc];
                let b: u8 = self.buf[yc * WIDTH + xc + 1];
                let r: u8 = self.buf[(yc + 1) * WIDTH + xc];
                self.rgb[y * WIDTH + x] = pack_rgb(r, g, b);
                proof {
                    let i = y * WIDTH + x;
                    assert(i / WIDTH as int == y && i % WIDTH as int == x);
                }
                x = x + 1;
            }
            y = y + 1;
        }
        assert(self.rgb@ =~= bayer::debayer(before.buf));
        self.seq = self.seq.wrapping_add(1);
    }
}

} // verus!
