//! The control transfers by which bridge registers are read and written.

use vstd::prelude::*;

use crate::camera;
use crate::camera::Op;
use crate::sequencer;
use crate::sequencer::{Progress, Reply, Request};

verus! {

/// Request type of a write: to the device, vendor request, addressed to the device as a whole.
pub const VENDOR_OUT: u8 = 0x40;

/// Request type of a read: from the device, vendor request, addressed to the device as a whole.
pub const VENDOR_IN: u8 = 0xC0;

/// How long a control transfer may take, in milliseconds.
pub const CONTROL_TIMEOUT: u64 = 500;

/// A control transfer.
#[derive(Clone, Copy, Debug, PartialEq, Eq, Structural)]
pub struct Control {
    pub request_type: u8,
    pub request: u8,
    pub value: u16,
    pub index: u16,
    /// Bytes of data that go with it.
    pub length: u16,
    pub timeout_ms: u64,
}

/// The transfer that writes a register. The value travels in the setup packet, without data.
pub open spec fn write_control(index: u16, value: u8) -> Control {
    Control {
        request_type: 0x40,
        request: 0,
        value: value as u16,
        index,
        length: 0,
        timeout_ms: 500,
    }
}

/// The transfer that reads a register: one byte of data.
pub open spec fn read_control(index: u16) -> Control {
    Control { request_type: 0xC0, request: 0, value: 0, index, length: 1, timeout_ms: 500 }
}

/// The transfer that writes `value` to the bridge register `index`.
pub fn write_setup(index: u16, value: u8) -> (c: Control)
    ensures
        c == write_control(index, value),
        c.request_type == 0x40,
        c.request == 0,
        c.value == value,
        c.index == index,
        c.length == 0,
        c.timeout_ms == 500,
{
    Control {
        request_type: VENDOR_OUT,
        request: 0,
        value: value as u16,
        index,
        length: 0,
        timeout_ms: CONTROL_TIMEOUT,
    }
}

/// The transfer that reads the bridge register `index`.
pub fn read_setup(index: u16) -> (c: Control)
    ensures
        c == read_control(index),
        c.request_type == 0xC0,
        c.request == 0,
        c.value == 0,
        c.index == index,
        c.length == 1,
        c.timeout_ms == 500,
{
    Control {
        request_type: VENDOR_IN,
        request: 0,
        value: 0,
        index,
        length: 1,
        timeout_ms: CONTROL_TIMEOUT,
    }
}

impl Request {
    /// The control transfer that a request asks for, if it asks for one.
    pub open spec fn control(self) -> Option<Control> {
        match self {
            Request::Write { index, value } => Some(write_control(index, value)),
            Request::Read { index } => Some(read_control(index)),
            _ => None,
        }
    }
}

/// The control transfers that requests ask for, in order.
pub open spec fn transfers(requests: Seq<Request>) -> Seq<Control>
    decreases requests.len(),
{
    if requests.len() == 0 {
        Seq::empty()
    } else {
        match requests.last().control() {
            Some(c) => transfers(requests.drop_last()).push(c),
            None => transfers(requests.drop_last()),
        }
    }
}

/// The writing transfers that requests ask for, in order.
pub open spec fn writing_transfers(requests: Seq<Request>) -> Seq<Control> {
    transfers(requests).filter(|c: Control| c.request_type == 0x40)
}

/// A single register write takes exactly one control transfer, whether it succeeds or fails.
pub proof fn law_register_write_is_one_transfer(index: u16, value: u8, reply: Reply)
    ensures
        Progress::begin(camera::write_op(index, value)).after(seq![reply]).finished(),
        transfers(Progress::begin(camera::write_op(index, value)).issued(seq![reply])) == seq![
            write_control(index, value),
        ],
{
    let p = Progress::begin(camera::write_op(index, value));
    let replies = seq![reply];
    assert(replies.drop_last() =~= Seq::<Reply>::empty());
    reveal_with_fuel(Progress::after, 2);
    reveal_with_fuel(Progress::issued, 2);
    let issued = p.issued(replies);
    assert(issued =~= seq![p.request()]);
    assert(issued.drop_last() =~= Seq::<Request>::empty());
    reveal_with_fuel(transfers, 2);
    assert(transfers(issued) =~= seq![write_control(index, value)]);
}

/// Once a script is over, the writing transfers asked for are those of its register writes, in
/// order and each once, whatever the bus answered.
pub proof fn law_finished_script_transfers(ops: Seq<Op>, replies: Seq<Reply>)
    requires
        Progress::begin(ops).after(replies).finished(),
    ensures
        writing_transfers(Progress::begin(ops).issued(replies)) == sequencer::writes(
            ops,
        ).map_values(|w: (u16, u8)| write_control(w.0, w.1)),
{
    sequencer::law_finished_script_wrote_everything(ops, replies);
    lemma_writing_transfers(Progress::begin(ops).issued(replies));
}

proof fn lemma_writing_transfers(requests: Seq<Request>)
    ensures
        writing_transfers(requests) == sequencer::requested_writes(requests).map_values(
            |w: (u16, u8)| write_control(w.0, w.1),
        ),
    decreases requests.len(),
{
    reveal(Seq::filter);
    let f = |w: (u16, u8)| write_control(w.0, w.1);
    if requests.len() > 0 {
        lemma_writing_transfers(requests.drop_last());
        let front = transfers(requests.drop_last());
        match requests.last().control() {
            Some(c) => {
                assert(front.push(c).drop_last() =~= front);
            },
            None => {},
        }
        assert(writing_transfers(requests) =~= sequencer::requested_writes(requests).map_values(f));
    } else {
        assert(writing_transfers(requests) =~= sequencer::requested_writes(requests).map_values(f));
    }
}

/// A write is the vendor transfer 0x40 with request 0 that carries the byte as its value and the
/// register as its index, without data, within half a second.
pub proof fn law_write_transfer_fields(index: u16, value: u8)
    ensures
        write_control(index, value).request_type == 0x40,
        write_control(index, value).request == 0,
        write_control(index, value).value == value,
        write_control(index, value).index == index,
        write_control(index, value).length == 0,
        write_control(index, value).timeout_ms == 500,
{
}

/// A read is the vendor transfer 0xC0 with request 0 and value 0 that names the register as its
/// index and fetches one byte, within half a second.
pub proof fn law_read_transfer_fields(index: u16)
    ensures
        read_control(index).request_type == 0xC0,
        read_control(index).request == 0,
        read_control(index).value == 0,
        read_control(index).index == index,
        read_control(index).length == 1,
        read_control(index).timeout_ms == 500,
{
}

/// Writes to different registers, or of different bytes, are different transfers, and none is the
/// transfer of a read.
pub proof fn law_transfers_tell_registers_apart(i: u16, v: u8, j: u16, w: u8)
    ensures
        write_control(i, v) == write_control(j, w) <==> i == j && v == w,
        read_control(i) == read_control(j) <==> i == j,
        write_control(i, v) != read_control(j),
{
    law_write_transfer_fields(i, v);
    law_write_transfer_fields(j, w);
}

/// A request to write or read a register asks for the transfer of that very register, and no
/// other request asks for any.
pub proof fn law_request_names_its_register(r: Request)
    ensures
        r matches Request::Write { index, value } ==> {
            &&& r.control() matches Some(c)
            &&& c.request_type == 0x40
            &&& c.index == index
            &&& c.value == value
            &&& c.length == 0
        },
        r matches Request::Read { index } ==> {
            &&& r.control() matches Some(c)
            &&& c.request_type == 0xC0
            &&& c.index == index
            &&& c.value == 0
            &&& c.length == 1
        },
        !(r is Write) && !(r is Read) ==> r.control() is None,
{
}

} // verus!
