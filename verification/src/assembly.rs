//! What frame assembly guarantees over whole runs of packets.

use vstd::prelude::*;

use crate::bayer;
use crate::bayer::{FRAME_SZ, HEIGHT, WIDTH};
use crate::frame;
use crate::frame::{FrameModel, FrameState, MIN_FRAME_FILL};

verus! {

/// Every packet keeps the invariant.
pub proof fn law_packet_keeps_invariant(s: FrameModel, data: Seq<u8>)
    requires
        s.wf(),
    ensures
        s.after_packet(data).wf(),
{
}

/// Every run of packets keeps the invariant.
pub proof fn law_packets_keep_invariant(s: FrameModel, packets: Seq<Seq<u8>>)
    requires
        s.wf(),
    ensures
        s.after_packets(packets).wf(),
    decreases packets.len(),
{
    if packets.len() > 0 {
        law_packets_keep_invariant(s, packets.drop_last());
        law_packet_keeps_invariant(s.after_packets(packets.drop_last()), packets.last());
    }
}

/// A run of packets may be taken in two parts.
pub proof fn law_runs_concatenate(s: FrameModel, a: Seq<Seq<u8>>, b: Seq<Seq<u8>>)
    ensures
        s.after_packets(a + b) == s.after_packets(a).after_packets(b),
    decreases b.len(),
{
    if b.len() == 0 {
        assert(a + b =~= a);
    } else {
        assert((a + b).drop_last() =~= a + b.drop_last());
        law_runs_concatenate(s, a, b.drop_last());
    }
}

/// A packet that is empty, or marked so, changes nothing.
pub proof fn law_empty_packets_ignored(s: FrameModel, data: Seq<u8>)
    requires
        s.wf(),
        data.len() == 0 || data[0] == frame::EMPTY_PACKET,
    ensures
        s.after_packet(data) == s,
{
    assert(s.stored(frame::continued(data)) =~= s);
}

/// With no frame under way, nothing changes until one starts.
pub proof fn law_waits_for_start_of_frame(s: FrameModel, packets: Seq<Seq<u8>>)
    requires
        !s.valid,
        frame::starts_none(packets),
    ensures
        s.after_packets(packets) == s,
    decreases packets.len(),
{
    if packets.len() > 0 {
        let last = packets.len() - 1;
        assert forall|i: int| 0 <= i < last implies !frame::starts_frame(
            #[trigger] packets.drop_last()[i],
        ) by {
            assert(packets.drop_last()[i] == packets[i]);
        }
        law_waits_for_start_of_frame(s, packets.drop_last());
        assert(!frame::starts_frame(packets[last]));
    }
}

/// A frame whose header is short or announces compressed data is dropped whole.
pub proof fn law_unusable_frame_dropped(s: FrameModel, first: Seq<u8>, rest: Seq<Seq<u8>>)
    requires
        frame::starts_frame(first),
        !frame::starts_raw_frame(first),
        frame::starts_none(rest),
    ensures
        s.after_packet(first).after_packets(rest) == (FrameModel {
            pos: 0,
            valid: false,
            ..s.ended()
        }),
{
    law_waits_for_start_of_frame(s.after_packet(first), rest);
}

/// A new picture is shown exactly when a frame starts while enough of the previous one has
/// arrived; at any other packet the picture and its number stay.
pub proof fn law_shown_only_at_start_of_frame(s: FrameModel, data: Seq<u8>)
    ensures
        frame::starts_frame(data) && s.showable() ==> {
            &&& s.after_packet(data).rgb == bayer::debayer(s.buf)
            &&& s.after_packet(data).seq == frame::next_seq(s.seq)
        },
        !(frame::starts_frame(data) && s.showable()) ==> {
            &&& s.after_packet(data).rgb == s.rgb
            &&& s.after_packet(data).seq == s.seq
        },
        s.after_packet(data).count == s.count,
{
}

/// Storing two bodies one after the other stores their concatenation.
proof fn lemma_stored_twice(s: FrameModel, a: Seq<u8>, b: Seq<u8>)
    requires
        s.wf(),
    ensures
        s.stored(a).stored(b) == s.stored(a + b),
{
    assert(s.stored(a).stored(b).buf =~= s.stored(a + b).buf);
}

/// Packets that start no frame store what they carry.
proof fn lemma_continuations_stored(s: FrameModel, packets: Seq<Seq<u8>>)
    requires
        s.wf(),
        s.valid,
        frame::starts_none(packets),
    ensures
        s.after_packets(packets) == s.stored(frame::carried(packets)),
    decreases packets.len(),
{
    if packets.len() == 0 {
        assert(s.stored(frame::carried(packets)) =~= s);
    } else {
        let init = packets.drop_last();
        assert forall|i: int| 0 <= i < init.len() implies !frame::starts_frame(
            #[trigger] init[i],
        ) by {
            assert(init[i] == packets[i]);
        }
        lemma_continuations_stored(s, init);
        assert(!frame::starts_frame(packets[packets.len() - 1]));
        lemma_stored_twice(s, frame::carried(init), frame::continued(packets.last()));
    }
}

/// The pixels of a frame: what its first packet carries behind the header, then what the packets
/// up to the next start of frame carry.
pub open spec fn frame_pixels(first: Seq<u8>, rest: Seq<Seq<u8>>) -> Seq<u8> {
    frame::opening(first) + frame::carried(rest)
}

/// However the pixels of a frame are cut into packets, they end up in order at the front of the
/// buffer, those beyond one frame are dropped, and behind them the buffer keeps what it held.
pub proof fn law_frame_reassembled(s: FrameModel, first: Seq<u8>, rest: Seq<Seq<u8>>)
    requires
        s.wf(),
        frame::starts_raw_frame(first),
        frame::starts_none(rest),
    ensures
        ({
            let pixels = frame_pixels(first, rest);
            let arrived = frame::smaller(pixels.len() as int, FRAME_SZ as int);
            s.after_packet(first).after_packets(rest) == (FrameModel {
                buf: frame::overlay(s.buf, 0, pixels.take(arrived)),
                pos: arrived,
                valid: true,
                ..s.ended()
            })
        }),
{
    let opened = FrameModel { pos: 0, valid: true, ..s.ended() };
    let after = s.after_packet(first);
    law_packet_keeps_invariant(s, first);
    lemma_continuations_stored(after, rest);
    lemma_stored_twice(opened, frame::opening(first), frame::carried(rest));
}

/// What the next start of frame shows: the frame just assembled if at least seven eighths of it
/// arrived, and otherwise the picture that was there.
pub proof fn law_frame_shown(
    s: FrameModel,
    first: Seq<u8>,
    rest: Seq<Seq<u8>>,
    next: Seq<u8>,
)
    requires
        s.wf(),
        frame::starts_raw_frame(first),
        frame::starts_none(rest),
        frame::starts_frame(next),
    ensures
        ({
            let pixels = frame_pixels(first, rest);
            let arrived = frame::smaller(pixels.len() as int, FRAME_SZ as int);
            let shown = s.after_packet(first).after_packets(rest).after_packet(next);
            &&& pixels.len() >= MIN_FRAME_FILL ==> {
                &&& shown.rgb == bayer::debayer(frame::overlay(s.buf, 0, pixels.take(arrived)))
                &&& shown.seq == frame::next_seq(s.ended().seq)
            }
            &&& pixels.len() < MIN_FRAME_FILL ==> {
                &&& shown.rgb == s.ended().rgb
                &&& shown.seq == s.ended().seq
            }
        }),
{
    law_frame_reassembled(s, first, rest);
}

/// A frame that arrives whole is shown as it was sent, whatever came before it.
pub proof fn law_whole_frame_shown_exactly(
    s: FrameModel,
    first: Seq<u8>,
    rest: Seq<Seq<u8>>,
    next: Seq<u8>,
)
    requires
        s.wf(),
        frame::starts_raw_frame(first),
        frame::starts_none(rest),
        frame::starts_frame(next),
        frame_pixels(first, rest).len() >= FRAME_SZ,
    ensures
        s.after_packet(first).after_packets(rest).after_packet(next).rgb == bayer::debayer(
            frame_pixels(first, rest).take(FRAME_SZ as int),
        ),
{
    law_frame_shown(s, first, rest, next);
    let pixels = frame_pixels(first, rest);
    assert(frame::overlay(s.buf, 0, pixels.take(FRAME_SZ as int)) =~= pixels.take(FRAME_SZ as int));
}

/// A frame that lost its tail is shown with the previous frame's pixels there: every pixel whose
/// whole block lies behind what arrived looks as it did in the frame before, when that one was
/// shown.
pub proof fn law_missing_tail_keeps_previous_pixels(
    s: FrameModel,
    first: Seq<u8>,
    rest: Seq<Seq<u8>>,
    next: Seq<u8>,
    y: int,
    x: int,
)
    requires
        s.wf(),
        s.showable(),
        frame::starts_raw_frame(first),
        frame::starts_none(rest),
        frame::starts_frame(next),
        frame_pixels(first, rest).len() >= MIN_FRAME_FILL,
        0 <= y < HEIGHT,
        0 <= x < WIDTH,
        (y - y % 2) * WIDTH + (x - x % 2) >= frame_pixels(first, rest).len(),
    ensures
        s.after_packet(first).after_packets(rest).after_packet(next).rgb[y * WIDTH + x]
            == s.after_packet(first).rgb[y * WIDTH + x],
{
    law_frame_shown(s, first, rest, next);
    let i = y * WIDTH + x;
    assert(i / WIDTH as int == y && i % WIDTH as int == x);
}

/// Two frames that arrive whole one after the other are both shown, and numbered one apart.
pub proof fn law_consecutive_frames_counted(
    s: FrameModel,
    first: Seq<u8>,
    rest: Seq<Seq<u8>>,
    next: Seq<u8>,
    more: Seq<Seq<u8>>,
    last: Seq<u8>,
)
    requires
        s.wf(),
        frame::starts_raw_frame(first),
        frame::starts_none(rest),
        frame::starts_raw_frame(next),
        frame::starts_none(more),
        frame::starts_frame(last),
        frame_pixels(first, rest).len() >= MIN_FRAME_FILL,
        frame_pixels(next, more).len() >= MIN_FRAME_FILL,
    ensures
        s.after_packet(first).after_packets(rest).after_packet(next).after_packets(
            more,
        ).after_packet(last).seq == frame::next_seq(
            s.after_packet(first).after_packets(rest).after_packet(next).seq,
        ),
{
    let mid = s.after_packet(first).after_packets(rest);
    law_packet_keeps_invariant(s, first);
    law_packets_keep_invariant(s.after_packet(first), rest);
    law_frame_shown(s, first, rest, next);
    law_frame_shown(mid, next, more, last);
    law_frame_reassembled(s, first, rest);
}

/// How many packets of a run put a picture on show.
pub open spec fn pictures_shown(s: FrameModel, packets: Seq<Seq<u8>>) -> nat
    decreases packets.len(),
{
    if packets.len() == 0 {
        0
    } else {
        let before = s.after_packets(packets.drop_last());
        pictures_shown(s, packets.drop_last()) + if frame::starts_frame(packets.last())
            && before.showable() {
            1nat
        } else {
            0nat
        }
    }
}

/// The frame number counts the pictures shown, wrapping at 64 bits.
pub proof fn law_seq_counts_pictures(s: FrameModel, packets: Seq<Seq<u8>>)
    ensures
        s.after_packets(packets).seq == (s.seq + pictures_shown(s, packets)) % (u64::MAX + 1),
    decreases packets.len(),
{
    if packets.len() > 0 {
        let init = packets.drop_last();
        law_seq_counts_pictures(s, init);
        law_shown_only_at_start_of_frame(s.after_packets(init), packets.last());
    }
}

/// A frame state stands for its own fields, and is in order when both buffers hold one frame and
/// the position lies within it.
pub proof fn law_state_stands_for_its_fields(s: &FrameState)
    ensures
        s@.buf == s.buf@,
        s@.pos == s.pos,
        s@.valid == s.valid,
        s@.count == s.count,
        s@.rgb == s.rgb@,
        s@.seq == s.seq,
        s.wf() <==> s.buf@.len() == 101376 && s.rgb@.len() == 101376 && s.pos <= 101376,
{
}

/// A packet that starts a raw frame lays the bytes behind its first 17, which are the sequence
/// number and the header whatever they hold, over the front of the buffer, as many as a frame
/// has room for; the buffer keeps the rest.
pub proof fn law_start_of_frame_skips_header(s: FrameModel, data: Seq<u8>, k: int)
    requires
        s.wf(),
        data.len() >= 17,
        data[0] == 0x00,
        data[2] & 0x10 == 0,
        0 <= k < 101376,
    ensures
        s.after_packet(data).valid,
        s.after_packet(data).buf.len() == 101376,
        data.len() - 17 <= 101376 ==> s.after_packet(data).pos == data.len() - 17,
        data.len() - 17 > 101376 ==> s.after_packet(data).pos == 101376,
        k < data.len() - 17 ==> s.after_packet(data).buf[k] == data[17 + k],
        k >= data.len() - 17 ==> s.after_packet(data).buf[k] == s.buf[k],
{
}

/// A packet that starts a frame with less than a full header, or with the compression bit set,
/// ends assembly: no frame is under way, and the buffer is left alone.
pub proof fn law_unusable_start_of_frame(s: FrameModel, data: Seq<u8>)
    requires
        data.len() >= 1,
        data[0] == 0x00,
        data.len() < 17 || data[2] & 0x10 != 0,
    ensures
        !s.after_packet(data).valid,
        s.after_packet(data).pos == 0,
        s.after_packet(data).buf == s.buf,
{
}

/// A packet that starts a frame, of whatever kind, puts the bytes assembled so far on show if a
/// frame is under way and at least 88704 of its bytes have arrived, and otherwise leaves the
/// picture alone.
pub proof fn law_start_of_frame_shows_previous(s: FrameModel, data: Seq<u8>, y: int, x: int)
    requires
        s.wf(),
        data.len() >= 1,
        data[0] == 0x00,
        0 <= y < 288,
        0 <= x < 352,
    ensures
        s.valid && s.pos >= 88704 ==> {
            &&& s.after_packet(data).seq == (s.seq + 1) % 0x1_0000_0000_0000_0000
            &&& s.after_packet(data).rgb.len() == 101376
            &&& s.after_packet(data).rgb[y * 352 + x] == s.buf[(y - y % 2 + 1) * 352 + (x - x % 2)]
                * 65536 + s.buf[(y - y % 2) * 352 + (x - x % 2)] * 256 + s.buf[(y - y % 2) * 352 + (
            x - x % 2) + 1]
        },
        !(s.valid && s.pos >= 88704) ==> {
            &&& s.after_packet(data).seq == s.seq
            &&& s.after_packet(data).rgb == s.rgb
        },
        s.after_packet(data).count == s.count,
{
    bayer::law_pixel_shows_its_block(s.buf, y, x);
}

/// A packet that continues the frame under way lays the bytes behind its first over the buffer
/// from the position on, as many as there is room for, and changes nothing else.
pub proof fn law_continuation_appends(s: FrameModel, data: Seq<u8>, k: int)
    requires
        s.wf(),
        s.valid,
        data.len() >= 1,
        data[0] != 0x00,
        data[0] != 0xff,
        0 <= k < 101376,
    ensures
        s.pos + data.len() - 1 <= 101376 ==> s.after_packet(data).pos == s.pos + data.len() - 1,
        s.pos + data.len() - 1 > 101376 ==> s.after_packet(data).pos == 101376,
        s.pos <= k < s.pos + data.len() - 1 ==> s.after_packet(data).buf[k] == data[1 + k - s.pos],
        !(s.pos <= k < s.pos + data.len() - 1) ==> s.after_packet(data).buf[k] == s.buf[k],
        s.after_packet(data).buf.len() == 101376,
        s.after_packet(data).valid,
        s.after_packet(data).rgb == s.rgb,
        s.after_packet(data).seq == s.seq,
        s.after_packet(data).count == s.count,
{
}

/// With no frame under way, a packet that starts none changes nothing.
pub proof fn law_continuation_without_frame_ignored(s: FrameModel, data: Seq<u8>)
    requires
        !s.valid,
        data.len() == 0 || data[0] != 0x00,
    ensures
        s.after_packet(data) == s,
{
}

/// An empty packet, and one that begins with `0xff`, changes nothing.
pub proof fn law_packet_without_data_ignored(s: FrameModel, data: Seq<u8>)
    requires
        s.wf(),
        data.len() == 0 || data[0] == 0xff,
    ensures
        s.after_packet(data) == s,
{
    law_empty_packets_ignored(s, data);
}

/// A run of packets takes effect packet by packet, to the last.
pub proof fn law_run_takes_every_packet(s: FrameModel, packets: Seq<Seq<u8>>, data: Seq<u8>)
    ensures
        s.after_packets(Seq::empty()) == s,
        s.after_packets(packets.push(data)) == s.after_packets(packets).after_packet(data),
{
    assert(packets.push(data).drop_last() =~= packets);
}

/// Frame assembly begins with a black picture, an empty buffer and no frame under way.
pub proof fn law_initial_state(i: int)
    requires
        0 <= i < 101376,
    ensures
        FrameModel::initial().buf.len() == 101376,
        FrameModel::initial().buf[i] == 0,
        FrameModel::initial().rgb.len() == 101376,
        FrameModel::initial().rgb[i] == 0,
        FrameModel::initial().pos == 0,
        !FrameModel::initial().valid,
        FrameModel::initial().count == 0,
        FrameModel::initial().seq == 0,
{
}

} // verus!
