//! Running a script: what to ask of the bus next, given what it answered so far.

use vstd::prelude::*;

use crate::camera::Op;

verus! {

/// The bridge register that reads zero once the sensor has taken a value.
pub const STATUS_REG: u16 = 0x8803;

/// How often the status register is read before a handshake is given up.
pub const MAX_POLLS: u32 = 60;

/// The pause after each read that found the sensor busy, in milliseconds.
pub const POLL_PAUSE: u64 = 10;

/// What the bus is asked to do next.
#[derive(Clone, Copy, Debug, PartialEq, Eq, Structural)]
pub enum Request {
    /// Write one byte to a bridge register.
    Write { index: u16, value: u8 },
    /// Read one byte from a bridge register.
    Read { index: u16 },
    /// Let some milliseconds pass.
    Sleep { ms: u64 },
    /// Report that the sensor never took the value for its register `reg`.
    TimedOut { reg: u16 },
    /// Nothing: the script is over.
    Finished,
}

/// How a request went.
#[derive(Clone, Copy, Debug, PartialEq, Eq, Structural)]
pub enum Reply {
    /// It was carried out.
    Done,
    /// It failed.
    Failed,
    /// It was a read, and this byte came back.
    Byte(u8),
}

/// A script on its way.
pub struct Sequencer {
    ops: Vec<Op>,
    pc: usize,
    polls: u32,
    pausing: bool,
}

/// What a `Sequencer` stands for.
#[verifier::ext_equal]
pub struct Progress {
    /// The script.
    pub ops: Seq<Op>,
    /// The step under way.
    pub pc: int,
    /// How many reads of the handshake under way found the sensor busy.
    pub polls: int,
    /// Whether the pause after such a read is under way.
    pub pausing: bool,
}

impl Progress {
    /// The beginning of a script.
    pub open spec fn begin(ops: Seq<Op>) -> Progress {
        Progress { ops, pc: 0, polls: 0, pausing: false }
    }

    /// The step lies in the script or at its end, and only a handshake has polls to count.
    pub open spec fn wf(self) -> bool {
        &&& 0 <= self.pc <= self.ops.len()
        &&& 0 <= self.polls <= MAX_POLLS
        &&& self.pausing ==> self.polls > 0
        &&& (self.finished() || !(self.ops[self.pc] is Handshake)) ==> self.polls == 0
    }

    /// Whether the script is over.
    pub open spec fn finished(self) -> bool {
        self.pc == self.ops.len()
    }

    /// The request of the step under way.
    pub open spec fn request(self) -> Request {
        if self.finished() {
            Request::Finished
        } else {
            match self.ops[self.pc] {
                Op::Write { index, value } => Request::Write { index, value },
                Op::Sleep { ms } => Request::Sleep { ms },
                Op::Handshake { reg } => if self.pausing {
                    Request::Sleep { ms: POLL_PAUSE }
                } else if self.polls < MAX_POLLS {
                    Request::Read { index: STATUS_REG }
                } else {
                    Request::TimedOut { reg }
                },
            }
        }
    }

    /// The beginning of the next step.
    pub open spec fn next_step(self) -> Progress {
        Progress { pc: self.pc + 1, polls: 0, pausing: false, ..self }
    }

    /// What a reply to the request leads to. A write or a pause is over whatever the reply. A
    /// handshake is over when the status register reads zero; any other reply to a read costs a
    /// poll and a pause, and when no poll is left the handshake is reported and abandoned.
    pub open spec fn advanced(self, reply: Reply) -> Progress {
        if self.finished() {
            self
        } else if self.request() is Read {
            if reply == Reply::Byte(0) {
                self.next_step()
            } else {
                Progress { polls: self.polls + 1, pausing: true, ..self }
            }
        } else if self.pausing {
            Progress { pausing: false, ..self }
        } else {
            self.next_step()
        }
    }

    /// What a run of replies leads to.
    pub open spec fn after(self, replies: Seq<Reply>) -> Progress
        decreases replies.len(),
    {
        if replies.len() == 0 {
            self
        } else {
            self.after(replies.drop_last()).advanced(replies.last())
        }
    }

    /// The requests that a run of replies answers.
    pub open spec fn issued(self, replies: Seq<Reply>) -> Seq<Request>
        decreases replies.len(),
    {
        if replies.len() == 0 {
            Seq::empty()
        } else {
            self.issued(replies.drop_last()).push(self.after(replies.drop_last()).request())
        }
    }

    /// An upper bound on the requests that are left.
    pub open spec fn requests_left(self) -> int {
        most_requests(self.ops.skip(self.pc)) - 2 * self.polls + if self.pausing {
            1int
        } else {
            0
        }
    }
}

/// The most requests that one step can take: a handshake reads and pauses at most `MAX_POLLS`
/// times, and then is reported.
pub open spec fn cost(op: Op) -> int {
    if op is Handshake {
        2 * MAX_POLLS + 1
    } else {
        1
    }
}

/// The most requests that a script can take.
pub open spec fn most_requests(ops: Seq<Op>) -> int
    decreases ops.len(),
{
    if ops.len() == 0 {
        0
    } else {
        cost(ops.first()) + most_requests(ops.drop_first())
    }
}

/// The writes of a script, in order.
pub open spec fn writes(ops: Seq<Op>) -> Seq<(u16, u8)>
    decreases ops.len(),
{
    if ops.len() == 0 {
        Seq::empty()
    } else {
        match ops.last() {
            Op::Write { index, value } => writes(ops.drop_last()).push((index, value)),
            _ => writes(ops.drop_last()),
        }
    }
}

/// The writes among requests, in order.
pub open spec fn requested_writes(requests: Seq<Request>) -> Seq<(u16, u8)>
    decreases requests.len(),
{
    if requests.len() == 0 {
        Seq::empty()
    } else {
        match requests.last() {
            Request::Write { index, value } => requested_writes(requests.drop_last()).push(
                (index, value),
            ),
            _ => requested_writes(requests.drop_last()),
        }
    }
}

impl View for Sequencer {
    type V = Progress;

    closed spec fn view(&self) -> Progress {
        Progress {
            ops: self.ops@,
            pc: self.pc as int,
            polls: self.polls as int,
            pausing: self.pausing,
        }
    }
}

impl Sequencer {
    /// The beginning of a script.
    pub fn new(ops: Vec<Op>) -> (s: Self)
        ensures
            s@ == Progress::begin(ops@),
            s@.wf(),
    {
        Sequencer { ops, pc: 0, polls: 0, pausing: false }
    }

    /// What to ask of the bus now.
    pub fn request(&self) -> (r: Request)
        requires
            self@.wf(),
        ensures
            r == self@.request(),
    {
        if self.pc == self.ops.len() {
            return Request::Finished;
        }
        match self.ops[self.pc] {
            Op::Write { index, value } => Request::Write { index, value },
            Op::Sleep { ms } => Request::Sleep { ms },
            Op::Handshake { reg } => if self.pausing {
                Request::Sleep { ms: POLL_PAUSE }
            } else if self.polls < MAX_POLLS {
                Request::Read { index: STATUS_REG }
            } else {
                Request::TimedOut { reg }
            },
        }
    }

    /// Takes the reply to the request.
    pub fn advance(&mut self, reply: Reply)
        requires
            old(self)@.wf(),
        ensures
            final(self)@.wf(),
            final(self)@ == old(self)@.advanced(reply),
    {
        match self.request() {
            Request::Finished => {},
            Request::Read { .. } => {
                if reply == Reply::Byte(0) {
                    self.step();
                } else {
                    self.polls = self.polls + 1;
                    self.pausing = true;
                }
            },
            _ => {
                if self.pausing {
                    self.pausing = false;
                } else {
                    self.step();
                }
            },
        }
    }

    /// Goes on to the next step.
    fn step(&mut self)
        requires
            old(self)@.wf(),
            !old(self)@.finished(),
        ensures
            final(self)@.wf(),
            final(self)@ == old(self)@.next_step(),
    {
        assert(self.pc < self.ops.len());
        self.pc = self.pc + 1;
        self.polls = 0;
        self.pausing = false;
    }
}

/// Every reply keeps the invariant, and the script stays the same.
pub proof fn law_reply_keeps_invariant(p: Progress, reply: Reply)
    requires
        p.wf(),
    ensures
        p.advanced(reply).wf(),
        p.advanced(reply).ops == p.ops,
{
}

proof fn lemma_after_wf(p: Progress, replies: Seq<Reply>)
    requires
        p.wf(),
    ensures
        p.after(replies).wf(),
        p.after(replies).ops == p.ops,
    decreases replies.len(),
{
    if replies.len() > 0 {
        lemma_after_wf(p, replies.drop_last());
    }
}

/// Every reply brings the end of the script nearer.
pub proof fn law_every_reply_makes_progress(p: Progress, reply: Reply)
    requires
        p.wf(),
        !p.finished(),
    ensures
        0 <= p.advanced(reply).requests_left() < p.requests_left(),
{
    let rest = p.ops.skip(p.pc);
    assert(rest.first() == p.ops[p.pc]);
    assert(rest.drop_first() =~= p.ops.skip(p.pc + 1));
    lemma_most_requests_nonnegative(p.ops.skip(p.pc + 1));
}

proof fn lemma_most_requests_nonnegative(ops: Seq<Op>)
    ensures
        0 <= most_requests(ops),
    decreases ops.len(),
{
    if ops.len() > 0 {
        lemma_most_requests_nonnegative(ops.drop_first());
    }
}

/// A script always ends, whatever the bus answers: it takes at most one request for each write
/// and each pause, and 121 for each handshake.
pub proof fn law_script_finishes(ops: Seq<Op>, replies: Seq<Reply>)
    requires
        replies.len() >= most_requests(ops),
    ensures
        Progress::begin(ops).after(replies).finished(),
{
    assert(ops.skip(0) =~= ops);
    lemma_left_after(Progress::begin(ops), replies);
    let end = Progress::begin(ops).after(replies);
    lemma_after_wf(Progress::begin(ops), replies);
    if !end.finished() {
        law_every_reply_makes_progress(end, Reply::Done);
    }
}

proof fn lemma_left_after(p: Progress, replies: Seq<Reply>)
    requires
        p.wf(),
    ensures
        p.after(replies).finished() || p.after(replies).requests_left() <= p.requests_left()
            - replies.len(),
    decreases replies.len(),
{
    if replies.len() > 0 {
        let init = replies.drop_last();
        lemma_left_after(p, init);
        lemma_after_wf(p, init);
        if !p.after(init).finished() {
            law_every_reply_makes_progress(p.after(init), replies.last());
        }
    }
}

/// At any time the writes asked for so far are those of the steps behind, in order and each once,
/// whatever the bus answered.
pub proof fn law_writes_follow_script(ops: Seq<Op>, replies: Seq<Reply>)
    ensures
        requested_writes(Progress::begin(ops).issued(replies)) == writes(
            ops.take(Progress::begin(ops).after(replies).pc),
        ),
    decreases replies.len(),
{
    let p = Progress::begin(ops);
    lemma_after_wf(p, replies);
    if replies.len() == 0 {
        assert(ops.take(0) =~= Seq::empty());
    } else {
        let init = replies.drop_last();
        let now = p.after(init);
        law_writes_follow_script(ops, init);
        lemma_after_wf(p, init);
        assert(p.issued(replies).drop_last() =~= p.issued(init));
        assert(p.issued(replies).last() == now.request());
        if !now.finished() {
            assert(ops.take(now.pc + 1).drop_last() =~= ops.take(now.pc));
            assert(ops.take(now.pc + 1).last() == ops[now.pc]);
        }
    }
}

/// Once a script is over, exactly its writes have been asked for.
pub proof fn law_finished_script_wrote_everything(ops: Seq<Op>, replies: Seq<Reply>)
    requires
        Progress::begin(ops).after(replies).finished(),
    ensures
        requested_writes(Progress::begin(ops).issued(replies)) == writes(ops),
{
    law_writes_follow_script(ops, replies);
    lemma_after_wf(Progress::begin(ops), replies);
    assert(ops.take(ops.len() as int) =~= ops);
}

/// Whether the reads among the replies to the first `tries` polls of a handshake all found the
/// sensor busy. Every other reply answers a pause.
pub open spec fn all_busy(replies: Seq<Reply>, tries: int) -> bool {
    &&& replies.len() == 2 * tries
    &&& forall|k: int| 0 <= k < tries ==> #[trigger] replies[2 * k] != Reply::Byte(0)
}

/// After some reads that found the sensor busy, each followed by a pause, the handshake has
/// counted them all and is otherwise where it was.
pub proof fn law_busy_polls_counted(p: Progress, reg: u16, replies: Seq<Reply>, tries: int)
    requires
        p.wf(),
        !p.finished(),
        p.ops[p.pc] == (Op::Handshake { reg }),
        p.polls == 0,
        !p.pausing,
        0 <= tries <= MAX_POLLS,
        all_busy(replies, tries),
    ensures
        p.after(replies) == (Progress { polls: tries, ..p }),
    decreases tries,
{
    if tries > 0 {
        let one = replies.drop_last();
        let two = one.drop_last();
        assert forall|k: int| 0 <= k < tries - 1 implies #[trigger] two[2 * k] != Reply::Byte(
            0,
        ) by {
            assert(two[2 * k] == replies[2 * k]);
        }
        law_busy_polls_counted(p, reg, two, tries - 1);
        let k = tries - 1;
        assert(one.last() == replies[2 * k]);
        assert(p.after(one) == p.after(two).advanced(one.last()));
        assert(p.after(replies) == p.after(one).advanced(replies.last()));
    }
}

/// A handshake ends without complaint at the first read of zero, if it comes within the allowed
/// number of polls.
pub proof fn law_handshake_succeeds(p: Progress, reg: u16, replies: Seq<Reply>, tries: int)
    requires
        p.wf(),
        !p.finished(),
        p.ops[p.pc] == (Op::Handshake { reg }),
        p.polls == 0,
        !p.pausing,
        0 <= tries < MAX_POLLS,
        all_busy(replies, tries),
    ensures
        p.after(replies).request() == (Request::Read { index: STATUS_REG }),
        p.after(replies.push(Reply::Byte(0))) == p.next_step(),
{
    law_busy_polls_counted(p, reg, replies, tries);
    assert(replies.push(Reply::Byte(0)).drop_last() =~= replies);
}

/// A handshake whose every poll finds the sensor busy is reported and then abandoned, and the
/// script goes on.
pub proof fn law_handshake_times_out(p: Progress, reg: u16, replies: Seq<Reply>, reply: Reply)
    requires
        p.wf(),
        !p.finished(),
        p.ops[p.pc] == (Op::Handshake { reg }),
        p.polls == 0,
        !p.pausing,
        all_busy(replies, MAX_POLLS as int),
    ensures
        p.after(replies).request() == (Request::TimedOut { reg }),
        p.after(replies.push(reply)) == p.next_step(),
{
    law_busy_polls_counted(p, reg, replies, MAX_POLLS as int);
    assert(replies.push(reply).drop_last() =~= replies);
}

/// A script begins at its first step, with no poll counted.
pub proof fn law_script_begins_at_first_step(ops: Seq<Op>)
    ensures
        Progress::begin(ops).ops == ops,
        Progress::begin(ops).pc == 0,
        Progress::begin(ops).polls == 0,
        !Progress::begin(ops).pausing,
        Progress::begin(ops).wf(),
{
}

/// Wherever a write stands in a script, it is asked for as it stands there, once, and whatever
/// the reply the next step follows.
pub proof fn law_write_asked_for_once(p: Progress, index: u16, value: u8, reply: Reply)
    requires
        p.wf(),
        p.pc < p.ops.len(),
        p.ops[p.pc] == (Op::Write { index, value }),
    ensures
        p.request() == (Request::Write { index, value }),
        p.advanced(reply).ops == p.ops,
        p.advanced(reply).pc == p.pc + 1,
        p.advanced(reply).polls == 0,
        !p.advanced(reply).pausing,
{
}

/// Wherever a pause stands in a script, it is asked for at its full length, once, and whatever the
/// reply the next step follows.
pub proof fn law_pause_asked_for_once(p: Progress, ms: u64, reply: Reply)
    requires
        p.wf(),
        p.pc < p.ops.len(),
        p.ops[p.pc] == (Op::Sleep { ms }),
    ensures
        p.request() == (Request::Sleep { ms }),
        p.advanced(reply).ops == p.ops,
        p.advanced(reply).pc == p.pc + 1,
        p.advanced(reply).polls == 0,
        !p.advanced(reply).pausing,
{
}

/// Wherever a handshake stands in a script, it reads the status register while fewer than 60
/// polls found the sensor busy. A zero ends it; any other reply costs one poll, and is followed by
/// a pause of 10 ms.
pub proof fn law_busy_poll_is_followed_by_pause(p: Progress, reg: u16, reply: Reply)
    requires
        p.wf(),
        p.pc < p.ops.len(),
        p.ops[p.pc] == (Op::Handshake { reg }),
        !p.pausing,
        p.polls < 60,
    ensures
        p.request() == (Request::Read { index: 0x8803 }),
        p.advanced(reply).ops == p.ops,
        reply == Reply::Byte(0) ==> {
            &&& p.advanced(reply).pc == p.pc + 1
            &&& p.advanced(reply).polls == 0
            &&& !p.advanced(reply).pausing
        },
        reply != Reply::Byte(0) ==> {
            &&& p.advanced(reply).pc == p.pc
            &&& p.advanced(reply).polls == p.polls + 1
            &&& p.advanced(reply).pausing
            &&& p.advanced(reply).request() == (Request::Sleep { ms: 10 })
        },
{
}

/// After the pause a handshake reads again, or, when 60 polls found the sensor busy, reports that
/// it timed out.
pub proof fn law_pause_is_followed_by_poll_or_report(p: Progress, reg: u16, reply: Reply)
    requires
        p.wf(),
        p.pc < p.ops.len(),
        p.ops[p.pc] == (Op::Handshake { reg }),
        p.pausing,
    ensures
        p.request() == (Request::Sleep { ms: 10 }),
        p.advanced(reply).ops == p.ops,
        p.advanced(reply).pc == p.pc,
        p.advanced(reply).polls == p.polls,
        !p.advanced(reply).pausing,
        p.polls < 60 ==> p.advanced(reply).request() == (Request::Read { index: 0x8803 }),
        p.polls == 60 ==> p.advanced(reply).request() == (Request::TimedOut { reg }),
{
}

/// A handshake that is out of polls is reported once, under its own register, and the next step
/// follows.
pub proof fn law_timeout_reported_once(p: Progress, reg: u16, reply: Reply)
    requires
        p.wf(),
        p.pc < p.ops.len(),
        p.ops[p.pc] == (Op::Handshake { reg }),
        !p.pausing,
        p.polls == 60,
    ensures
        p.request() == (Request::TimedOut { reg }),
        p.advanced(reply).ops == p.ops,
        p.advanced(reply).pc == p.pc + 1,
        p.advanced(reply).polls == 0,
        !p.advanced(reply).pausing,
{
}

/// A script is over exactly when every step is behind, and then stays over.
pub proof fn law_over_when_every_step_is_behind(p: Progress, reply: Reply)
    requires
        p.wf(),
    ensures
        p.request() is Finished <==> p.pc == p.ops.len(),
        p.pc == p.ops.len() ==> p.advanced(reply) == p,
{
}

/// What a script in order may look like: never more than 60 polls, and polls and pauses only
/// while a handshake is under way.
pub proof fn law_invariant_means(p: Progress)
    ensures
        p.wf() <==> {
            &&& 0 <= p.pc <= p.ops.len()
            &&& 0 <= p.polls <= 60
            &&& p.pausing ==> p.polls > 0
            &&& p.polls > 0 ==> p.pc < p.ops.len() && p.ops[p.pc] is Handshake
        },
{
}

/// Replies take effect one by one, to the last, and each answers the request of its moment.
pub proof fn law_replies_take_effect_in_order(p: Progress, replies: Seq<Reply>, reply: Reply)
    ensures
        p.after(Seq::empty()) == p,
        p.after(replies.push(reply)) == p.after(replies).advanced(reply),
        p.issued(Seq::empty()) == Seq::<Request>::empty(),
        p.issued(replies.push(reply)) == p.issued(replies).push(p.after(replies).request()),
{
    assert(replies.push(reply).drop_last() =~= replies);
}

/// No step is skipped and none is gone back to: each reply leaves the step or moves on to the
/// next.
pub proof fn law_no_step_skipped(p: Progress, reply: Reply)
    requires
        p.wf(),
    ensures
        p.advanced(reply).pc == p.pc || p.advanced(reply).pc == p.pc + 1,
{
}

/// What came before a handshake's counted polls: reads that found the sensor busy, each followed
/// by a pause, with nothing in between.
proof fn lemma_poll_history(ops: Seq<Op>, replies: Seq<Reply>)
    ensures
        ({
            let p = Progress::begin(ops).after(replies);
            let q = Progress::begin(ops).issued(replies);
            let base = replies.len() - 2 * p.polls + if p.pausing {
                1int
            } else {
                0
            };
            &&& p.wf()
            &&& p.ops == ops
            &&& q.len() == replies.len()
            &&& 0 <= base
            &&& forall|t: int|
                base <= t < replies.len() ==> if (t - base) % 2 == 0 {
                    #[trigger] q[t] == (Request::Read { index: 0x8803 }) && replies[t]
                        != Reply::Byte(0)
                } else {
                    q[t] == (Request::Sleep { ms: 10 })
                }
        }),
    decreases replies.len(),
{
    if replies.len() > 0 {
        let init = replies.drop_last();
        lemma_poll_history(ops, init);
        let p0 = Progress::begin(ops).after(init);
        let q0 = Progress::begin(ops).issued(init);
        let base0 = init.len() - 2 * p0.polls + if p0.pausing {
            1int
        } else {
            0
        };
        let p = Progress::begin(ops).after(replies);
        let q = Progress::begin(ops).issued(replies);
        let base = replies.len() - 2 * p.polls + if p.pausing {
            1int
        } else {
            0
        };
        assert(q =~= q0.push(p0.request()));
        if p.polls > 0 {
            assert(base == base0);
            assert forall|t: int| base <= t < replies.len() implies if (t - base) % 2 == 0 {
                #[trigger] q[t] == (Request::Read { index: 0x8803 }) && replies[t] != Reply::Byte(0)
            } else {
                q[t] == (Request::Sleep { ms: 10 })
            } by {
                if t < init.len() {
                    assert(q[t] == q0[t]);
                    assert(replies[t] == init[t]);
                }
            }
        }
    }
}

/// A time-out is reported only after 60 reads of the status register, none of which gave a zero,
/// and each of which was followed by a pause of 10 ms: they are the last 120 requests.
pub proof fn law_timeout_only_after_sixty_busy_reads(ops: Seq<Op>, replies: Seq<Reply>, t: int)
    requires
        Progress::begin(ops).after(replies).request() is TimedOut,
        replies.len() - 120 <= t < replies.len(),
    ensures
        replies.len() >= 120,
        Progress::begin(ops).issued(replies).len() == replies.len(),
        (replies.len() - t) % 2 == 0 ==> {
            &&& Progress::begin(ops).issued(replies)[t] == (Request::Read { index: 0x8803 })
            &&& replies[t] != Reply::Byte(0)
        },
        (replies.len() - t) % 2 == 1 ==> Progress::begin(ops).issued(replies)[t] == (
        Request::Sleep { ms: 10 }),
{
    lemma_poll_history(ops, replies);
    let q = Progress::begin(ops).issued(replies);
    assert(q[t] == q[t]);
}

} // verus!
