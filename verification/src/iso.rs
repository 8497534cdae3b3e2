//! Isochronous transfers: how large they are, and which packets a finished one holds.

use vstd::prelude::*;

use crate::assembly;
use crate::frame;
use crate::frame::{FrameModel, FrameState};

verus! {

/// Transfers in flight. With `PKTS_PER_XFER` packets each, one per millisecond, the ring covers
/// 128 ms of queued slots.
pub const NUM_TRANSFERS: usize = 16;

/// Packets per transfer. A full-speed isochronous packet takes one 1 ms USB frame, so this is
/// also the latency in milliseconds before a finished transfer is looked at.
pub const PKTS_PER_XFER: usize = 8;

/// Status of a packet that arrived without error.
pub const COMPLETED: i32 = 0;

/// What the host controller reports of one packet of a transfer.
pub struct PacketDesc {
    /// Length of the packet's slot in the transfer's buffer.
    pub length: u32,
    /// How many bytes of the slot were filled.
    pub actual_length: u32,
    /// Outcome of the packet.
    pub status: i32,
}

/// The sizes that a transfer is set up with.
pub struct TransferPlan {
    /// Bytes to allocate for the buffer.
    pub buffer_len: usize,
    /// The buffer's length as the transfer states it.
    pub length: i32,
    /// Packets in the transfer.
    pub num_iso_packets: i32,
    /// Length of each packet's slot.
    pub packet_length: u32,
}

/// The length of every slot of a transfer: what its first packet declares.
pub open spec fn slot_len(descs: Seq<PacketDesc>) -> int {
    if descs.len() > 0 {
        descs[0].length as int
    } else {
        0
    }
}

/// Whether a packet holds data.
pub open spec fn usable(d: PacketDesc) -> bool {
    d.status == COMPLETED && d.actual_length != 0
}

/// The bytes of packet `i`. A packet sits at the start of its own slot, not behind the bytes that
/// earlier packets filled.
pub open spec fn packet_at(buffer: Seq<u8>, descs: Seq<PacketDesc>, i: int) -> Seq<u8> {
    buffer.subrange(i * slot_len(descs), i * slot_len(descs) + descs[i].actual_length)
}

/// The packets with data among the first `n` of a transfer.
pub open spec fn packets_upto(buffer: Seq<u8>, descs: Seq<PacketDesc>, n: int) -> Seq<Seq<u8>>
    decreases n,
{
    if n <= 0 {
        Seq::empty()
    } else if usable(descs[n - 1]) {
        packets_upto(buffer, descs, n - 1).push(packet_at(buffer, descs, n - 1))
    } else {
        packets_upto(buffer, descs, n - 1)
    }
}

/// The packets with data of a transfer.
pub open spec fn packets(buffer: Seq<u8>, descs: Seq<PacketDesc>) -> Seq<Seq<u8>> {
    packets_upto(buffer, descs, descs.len() as int)
}

/// How many packets of a run start a frame announced as compressed.
pub open spec fn compressed_starts(packets: Seq<Seq<u8>>) -> nat
    decreases packets.len(),
{
    if packets.len() == 0 {
        0
    } else if frame::starts_compressed(packets.last()) {
        compressed_starts(packets.drop_last()) + 1
    } else {
        compressed_starts(packets.drop_last())
    }
}

/// Whether every packet with data lies within the buffer.
pub open spec fn in_bounds(buffer_len: int, descs: Seq<PacketDesc>) -> bool {
    forall|i: int|
        0 <= i < descs.len() && usable(#[trigger] descs[i]) ==> i * slot_len(descs)
            + descs[i].actual_length <= buffer_len
}

/// Tells whether every packet with data lies within a buffer of `buffer_len` bytes.
pub fn fits(buffer_len: usize, descs: &[PacketDesc]) -> (fits: bool)
    ensures
        fits == in_bounds(buffer_len as int, descs@),
        fits == forall|i: int|
            0 <= i < descs@.len() && (#[trigger] descs@[i]).status == 0 && descs@[i].actual_length
                != 0 ==> i * descs@[0].length + descs@[i].actual_length <= buffer_len,
{
    let n: usize = descs.len();
    let pkt_len: u32 = if n > 0 {
        descs[0].length
    } else {
        0
    };
    let mut i: usize = 0;
    while i < n
        invariant
            i <= n,
            n == descs@.len(),
            pkt_len == slot_len(descs@),
            forall|j: int|
                0 <= j < i && usable(#[trigger] descs@[j]) ==> j * slot_len(descs@)
                    + descs@[j].actual_length <= buffer_len,
        decreases n - i,
    {
        let d: &PacketDesc = &descs[i];
        if d.status == completed_status() && d.actual_length != 0 {
            proof {
                assert(usable(descs@[i as int]));
                assert(0 <= i * pkt_len <= 0xffff_ffff_ffff_ffff * 0xffff_ffff) by (nonlinear_arith)
                    requires
                        0 <= i <= 0xffff_ffff_ffff_ffff,
                        0 <= pkt_len <= 0xffff_ffff,
                ;
            }
            let end: u128 = i as u128 * pkt_len as u128 + d.actual_length as u128;
            if end > buffer_len as u128 {
                return false;
            }
        }
        i = i + 1;
    }
    true
}

/// libusb's status of a packet that arrived without error,
/// `libusb1_sys::constants::LIBUSB_TRANSFER_COMPLETED`. Claims that the constant is 0.
#[verifier::external_body]
fn completed_status() -> (status: i32)
    ensures
        status == COMPLETED,
{
    libusb1_sys::constants::LIBUSB_TRANSFER_COMPLETED
}

/// Hands the packets of a finished transfer to the frame under assembly, and tells how many of
/// them start a frame that is unexpectedly announced as compressed. Packets that failed or that
/// hold nothing are skipped.
pub fn xfer_cb(state: &mut FrameState, buffer: &[u8], descs: &[PacketDesc]) -> (compressed: usize)
    requires
        old(state).wf(),
        in_bounds(buffer@.len() as int, descs@),
    ensures
        final(state).wf(),
        final(state)@ == old(state)@.after_packets(packets(buffer@, descs@)),
        compressed == compressed_starts(packets(buffer@, descs@)),
        final(state)@ == old(state)@.after_packets(
            Seq::new(descs@.len(), |i: int| i).filter(
                |i: int| descs@[i].status == 0 && descs@[i].actual_length != 0,
            ).map_values(
                |i: int|
                    buffer@.subrange(
                        i * descs@[0].length,
                        i * descs@[0].length + descs@[i].actual_length,
                    ),
            ),
        ),
{
    proof {
        law_packets_are_those_with_data(buffer@, descs@);
    }
    let n: usize = descs.len();
    let pkt_len: usize = if n > 0 {
        descs[0].length as usize
    } else {
        0
    };
    let mut compressed: usize = 0;
    let mut i: usize = 0;
    while i < n
        invariant
            i <= n,
            n == descs@.len(),
            pkt_len == slot_len(descs@),
            in_bounds(buffer@.len() as int, descs@),
            state.wf(),
            state@ == old(state)@.after_packets(packets_upto(buffer@, descs@, i as int)),
            compressed == compressed_starts(packets_upto(buffer@, descs@, i as int)),
            compressed <= i,
        decreases n - i,
    {
        let d: &PacketDesc = &descs[i];
        if d.status == completed_status() && d.actual_length != 0 {
            proof {
                assert(usable(descs@[i as int]));
                assert(buffer@.len() == buffer.len());
                assert(0 <= i * pkt_len) by (nonlinear_arith)
                    requires
                        0 <= i,
                        0 <= pkt_len,
                ;
            }
            let start: usize = i * pkt_len;
            let end: usize = start + d.actual_length as usize;
            let p: &[u8] = &buffer[start..end];
            let ghost so_far = packets_upto(buffer@, descs@, i as int);
            assert(p@ == packet_at(buffer@, descs@, i as int));
            assert(so_far.push(p@).drop_last() =~= so_far);
            if state.packet(p) {
                compressed = compressed + 1;
            }
        }
        i = i + 1;
    }
    compressed
}

/// The sizes of a transfer of packets of `packet_bytes` bytes.
pub fn plan_transfer(packet_bytes: usize) -> (plan: TransferPlan)
    requires
        packet_bytes * PKTS_PER_XFER <= i32::MAX,
    ensures
        plan.buffer_len == packet_bytes * PKTS_PER_XFER,
        plan.length == packet_bytes * PKTS_PER_XFER,
        plan.num_iso_packets == PKTS_PER_XFER,
        plan.packet_length == packet_bytes,
        plan.buffer_len == 8 * packet_bytes,
        plan.length == 8 * packet_bytes,
        plan.num_iso_packets == 8,
{
    TransferPlan {
        buffer_len: packet_bytes * PKTS_PER_XFER,
        length: (packet_bytes * PKTS_PER_XFER) as i32,
        num_iso_packets: PKTS_PER_XFER as i32,
        packet_length: packet_bytes as u32,
    }
}

/// Every packet of a transfer lies within the buffer that the plan allocates, when each slot has
/// the planned length and none is overfilled.
pub proof fn law_planned_transfer_in_bounds(packet_bytes: int, descs: Seq<PacketDesc>)
    requires
        0 <= packet_bytes,
        descs.len() == PKTS_PER_XFER,
        forall|i: int|
            0 <= i < descs.len() ==> (#[trigger] descs[i]).length == packet_bytes
                && descs[i].actual_length <= packet_bytes,
    ensures
        in_bounds(packet_bytes * PKTS_PER_XFER, descs),
{
    assert forall|i: int| 0 <= i < descs.len() && usable(#[trigger] descs[i]) implies i * slot_len(
        descs,
    ) + descs[i].actual_length <= packet_bytes * PKTS_PER_XFER by {
        assert(slot_len(descs) == packet_bytes);
        assert(i * packet_bytes + packet_bytes <= packet_bytes * 8) by (nonlinear_arith)
            requires
                0 <= packet_bytes,
                0 <= i <= 7,
        ;
    }
}

/// A transfer in which no packet holds data changes nothing.
pub proof fn law_idle_transfer_changes_nothing(
    s: FrameModel,
    buffer: Seq<u8>,
    descs: Seq<PacketDesc>,
)
    requires
        forall|i: int| 0 <= i < descs.len() ==> !usable(#[trigger] descs[i]),
    ensures
        s.after_packets(packets(buffer, descs)) == s,
{
    lemma_idle_prefix(buffer, descs, descs.len() as int);
}

proof fn lemma_idle_prefix(buffer: Seq<u8>, descs: Seq<PacketDesc>, n: int)
    requires
        forall|i: int| 0 <= i < descs.len() ==> !usable(#[trigger] descs[i]),
        0 <= n <= descs.len(),
    ensures
        packets_upto(buffer, descs, n) == Seq::<Seq<u8>>::empty(),
    decreases n,
{
    if n > 0 {
        lemma_idle_prefix(buffer, descs, n - 1);
    }
}

/// Transfers that finish one after the other deliver one run of packets: a frame may begin in one
/// and end in another.
pub proof fn law_transfers_join_up(
    s: FrameModel,
    buffer1: Seq<u8>,
    descs1: Seq<PacketDesc>,
    buffer2: Seq<u8>,
    descs2: Seq<PacketDesc>,
)
    ensures
        s.after_packets(packets(buffer1, descs1)).after_packets(packets(buffer2, descs2))
            == s.after_packets(packets(buffer1, descs1) + packets(buffer2, descs2)),
{
    assembly::law_runs_concatenate(s, packets(buffer1, descs1), packets(buffer2, descs2));
}

/// When every packet of a transfer holds data, they are delivered one for one, each from the
/// start of its own slot, however much of the slots before it was filled.
pub proof fn law_packets_keep_their_slots(buffer: Seq<u8>, descs: Seq<PacketDesc>, i: int)
    requires
        forall|j: int| 0 <= j < descs.len() ==> usable(#[trigger] descs[j]),
        0 <= i < descs.len(),
    ensures
        packets(buffer, descs).len() == descs.len(),
        packets(buffer, descs)[i] == buffer.subrange(
            i * slot_len(descs),
            i * slot_len(descs) + descs[i].actual_length,
        ),
{
    lemma_full_prefix(buffer, descs, descs.len() as int);
}

proof fn lemma_full_prefix(buffer: Seq<u8>, descs: Seq<PacketDesc>, n: int)
    requires
        forall|j: int| 0 <= j < descs.len() ==> usable(#[trigger] descs[j]),
        0 <= n <= descs.len(),
    ensures
        packets_upto(buffer, descs, n).len() == n,
        forall|i: int|
            0 <= i < n ==> #[trigger] packets_upto(buffer, descs, n)[i] == packet_at(
                buffer,
                descs,
                i,
            ),
    decreases n,
{
    if n > 0 {
        assert(usable(descs[n - 1]));
        lemma_full_prefix(buffer, descs, n - 1);
    }
}

proof fn lemma_prefix_filtered(buffer: Seq<u8>, descs: Seq<PacketDesc>, n: int)
    requires
        0 <= n <= descs.len(),
    ensures
        packets_upto(buffer, descs, n) == Seq::new(n as nat, |i: int| i).filter(
            |i: int| descs[i].status == 0 && descs[i].actual_length != 0,
        ).map_values(
            |i: int|
                buffer.subrange(
                    i * descs[0].length,
                    i * descs[0].length + descs[i].actual_length,
                ),
        ),
    decreases n,
{
    reveal(Seq::filter);
    let pred = |i: int| descs[i].status == 0 && descs[i].actual_length != 0;
    let cut = |i: int|
        buffer.subrange(i * descs[0].length, i * descs[0].length + descs[i].actual_length);
    let all = Seq::new(n as nat, |i: int| i);
    if n > 0 {
        lemma_prefix_filtered(buffer, descs, n - 1);
        assert(all.drop_last() =~= Seq::new((n - 1) as nat, |i: int| i));
        assert(all.last() == n - 1);
        assert(packets_upto(buffer, descs, n) =~= all.filter(pred).map_values(cut));
    } else {
        assert(packets_upto(buffer, descs, n) =~= all.filter(pred).map_values(cut));
    }
}

/// The packets of a transfer are, in order, those whose status is zero and that hold any bytes,
/// each cut from the buffer at its own number times the length of the first slot. Packets that
/// failed or are empty are left out, wherever they stand, and take no other with them.
pub proof fn law_packets_are_those_with_data(buffer: Seq<u8>, descs: Seq<PacketDesc>)
    ensures
        packets(buffer, descs) == Seq::new(descs.len(), |i: int| i).filter(
            |i: int| descs[i].status == 0 && descs[i].actual_length != 0,
        ).map_values(
            |i: int|
                buffer.subrange(
                    i * descs[0].length,
                    i * descs[0].length + descs[i].actual_length,
                ),
        ),
{
    lemma_prefix_filtered(buffer, descs, descs.len() as int);
}

proof fn lemma_prefix_grows(buffer: Seq<u8>, descs: Seq<PacketDesc>, m: int, n: int)
    requires
        0 <= m <= n <= descs.len(),
    ensures
        packets_upto(buffer, descs, m).len() <= packets_upto(buffer, descs, n).len(),
        forall|k: int|
            0 <= k < packets_upto(buffer, descs, m).len() ==> #[trigger] packets_upto(
                buffer,
                descs,
                n,
            )[k] == packets_upto(buffer, descs, m)[k],
    decreases n - m,
{
    if m < n {
        lemma_prefix_grows(buffer, descs, m, n - 1);
    }
}

/// A packet with data is delivered as the packet whose number is how many packets with data stand
/// before it, and as many packets are delivered as have data.
pub proof fn law_packet_delivered_in_its_turn(buffer: Seq<u8>, descs: Seq<PacketDesc>, i: int)
    requires
        0 <= i < descs.len(),
        descs[i].status == 0,
        descs[i].actual_length != 0,
    ensures
        ({
            let with_data = |j: int| descs[j].status == 0 && descs[j].actual_length != 0;
            let k = Seq::new(i as nat, |j: int| j).filter(with_data).len();
            &&& k < packets(buffer, descs).len()
            &&& packets(buffer, descs)[k as int] == buffer.subrange(
                i * descs[0].length,
                i * descs[0].length + descs[i].actual_length,
            )
            &&& packets(buffer, descs).len() == Seq::new(descs.len(), |j: int| j).filter(
                with_data,
            ).len()
        }),
{
    lemma_prefix_filtered(buffer, descs, i);
    lemma_prefix_filtered(buffer, descs, descs.len() as int);
    lemma_prefix_grows(buffer, descs, i + 1, descs.len() as int);
    assert(usable(descs[i]));
    let k = packets_upto(buffer, descs, i).len() as int;
    assert(packets_upto(buffer, descs, i + 1)[k] == packet_at(buffer, descs, i));
}

/// The compressed starts of a run are its packets of at least three bytes that begin with zero and
/// whose third byte has bit 4 set.
pub proof fn law_compressed_starts_counted(packets: Seq<Seq<u8>>)
    ensures
        compressed_starts(packets) == packets.filter(
            |p: Seq<u8>| p.len() >= 3 && p[0] == 0x00 && p[2] & 0x10 != 0,
        ).len(),
    decreases packets.len(),
{
    reveal(Seq::filter);
    if packets.len() > 0 {
        law_compressed_starts_counted(packets.drop_last());
    }
}

/// A transfer lies within its buffer when every packet that completed and holds bytes ends within
/// it, counted from its own number times the length of the first slot.
pub proof fn law_in_bounds_means(buffer_len: int, descs: Seq<PacketDesc>)
    ensures
        in_bounds(buffer_len, descs) <==> forall|i: int|
            0 <= i < descs.len() && (#[trigger] descs[i]).status == 0 && descs[i].actual_length != 0
                ==> i * descs[0].length + descs[i].actual_length <= buffer_len,
{
    if in_bounds(buffer_len, descs) {
        assert forall|i: int|
            0 <= i < descs.len() && (#[trigger] descs[i]).status == 0 && descs[i].actual_length
                != 0 implies i * descs[0].length + descs[i].actual_length <= buffer_len by {
            assert(usable(descs[i]));
        }
    }
}

/// The ring of transfers holds 128 packets, one for each of as many milliseconds.
pub proof fn law_ring_covers_128_packets()
    ensures
        NUM_TRANSFERS == 16,
        PKTS_PER_XFER == 8,
        NUM_TRANSFERS * PKTS_PER_XFER == 128,
{
}

} // verus!
