//! Pacing of the window loop: when to go on, when to report the frame rate, when to draw.
//!
//! Times are nanoseconds since some fixed moment.

use vstd::prelude::*;

verus! {

/// The picture is redrawn this often, whether or not a new frame arrived: at this resolution it
/// costs nothing, and it keeps the window responsive between frames.
pub const IDLE_PUMP: u64 = 16_000_000;

/// The frame rate is reported this often.
pub const REPORT_PERIOD: u64 = 1_000_000_000;

/// What the window loop remembers from one round to the next.
#[derive(Clone, Copy)]
pub struct Pacer {
    /// When the picture was last drawn.
    pub last_pump: u64,
    /// When the frame rate was last reported.
    pub last_report: u64,
    /// The number of the frame on show at that time.
    pub last_report_seq: u64,
}

/// Whether at least `period` has passed from `since` to `now`.
pub open spec fn elapsed(since: u64, now: u64, period: u64) -> bool {
    now - since >= period
}

impl Pacer {
    /// The pacer after a report at `now` of the frames up to number `seq`.
    pub open spec fn reported(self, seq: u64, now: u64) -> Pacer {
        Pacer { last_report: now, last_report_seq: seq, ..self }
    }

    /// The pacer after a picture drawn at `now`.
    pub open spec fn drawn(self, now: u64) -> Pacer {
        Pacer { last_pump: now, ..self }
    }

    /// A pacer that starts at `now`, before any frame.
    pub fn new(now: u64) -> (p: Self)
        ensures
            p.last_pump == now,
            p.last_report == now,
            p.last_report_seq == 0,
    {
        Pacer { last_pump: now, last_report: now, last_report_seq: 0 }
    }

    /// Whether the loop goes on: nobody asked to stop, the window is open and Escape is up.
    pub fn keep_running(running: bool, open: bool, escape_down: bool) -> (go_on: bool)
        ensures
            go_on == (running && open && !escape_down),
    {
        running && open && !escape_down
    }

    /// Whether it is time to report the frame rate.
    pub fn report_due(&self, now: u64) -> (due: bool)
        ensures
            due == elapsed(self.last_report, now, REPORT_PERIOD),
            due == (now >= self.last_report + 1_000_000_000),
    {
        now >= self.last_report && now - self.last_report >= REPORT_PERIOD
    }

    /// The number of frames shown since the last report, which this one replaces.
    pub fn report(&mut self, seq: u64, now: u64) -> (frames: u64)
        requires
            old(self).last_report_seq <= seq,
        ensures
            frames == seq - old(self).last_report_seq,
            *final(self) == old(self).reported(seq, now),
            final(self).last_report == now,
            final(self).last_report_seq == seq,
            final(self).last_pump == old(self).last_pump,
    {
        let frames: u64 = seq - self.last_report_seq;
        self.last_report_seq = seq;
        self.last_report = now;
        frames
    }

    /// Whether it is time to draw.
    pub fn pump_due(&self, now: u64) -> (due: bool)
        ensures
            due == elapsed(self.last_pump, now, IDLE_PUMP),
            due == (now >= self.last_pump + 16_000_000),
    {
        now >= self.last_pump && now - self.last_pump >= IDLE_PUMP
    }

    /// Notes that the picture is drawn.
    pub fn pumped(&mut self, now: u64)
        ensures
            *final(self) == old(self).drawn(now),
            final(self).last_pump == now,
            final(self).last_report == old(self).last_report,
            final(self).last_report_seq == old(self).last_report_seq,
    {
        self.last_pump = now;
    }
}

/// The pacer after a run of reports, each a frame number and a time.
pub open spec fn after_reports(p: Pacer, reports: Seq<(u64, u64)>) -> Pacer
    decreases reports.len(),
{
    if reports.len() == 0 {
        p
    } else {
        after_reports(p, reports.drop_last()).reported(reports.last().0, reports.last().1)
    }
}

/// The frames that a run of reports announces altogether.
pub open spec fn total_reported(p: Pacer, reports: Seq<(u64, u64)>) -> int
    decreases reports.len(),
{
    if reports.len() == 0 {
        0
    } else {
        total_reported(p, reports.drop_last()) + (reports.last().0 - after_reports(
            p,
            reports.drop_last(),
        ).last_report_seq)
    }
}

/// Reports lose no frame and count none twice: together they announce the frames between the
/// first and the last.
pub proof fn law_reports_add_up(p: Pacer, reports: Seq<(u64, u64)>)
    ensures
        total_reported(p, reports) == after_reports(p, reports).last_report_seq
            - p.last_report_seq,
    decreases reports.len(),
{
    if reports.len() > 0 {
        law_reports_add_up(p, reports.drop_last());
    }
}

/// After a report the next is due one full period later and no sooner, however often the picture
/// is drawn in between; and the other way round.
pub proof fn law_periods_independent(p: Pacer, seq: u64, now: u64, drawn: u64, later: u64)
    ensures
        elapsed(p.reported(seq, now).drawn(drawn).last_report, later, REPORT_PERIOD) <==> later
            >= now + REPORT_PERIOD,
        elapsed(p.drawn(drawn).reported(seq, now).last_pump, later, IDLE_PUMP) <==> later >= drawn
            + IDLE_PUMP,
{
}

/// The picture is drawn every 16 ms and the rate reported every second, counted from the last
/// time each was done.
pub proof fn law_periods(p: Pacer, seq: u64, at: u64, now: u64)
    ensures
        elapsed(p.reported(seq, at).last_report, now, REPORT_PERIOD) <==> now >= at + 1_000_000_000,
        elapsed(p.drawn(at).last_pump, now, IDLE_PUMP) <==> now >= at + 16_000_000,
        p.reported(seq, at).last_report_seq == seq,
        p.reported(seq, at).last_pump == p.last_pump,
        p.drawn(at).last_report == p.last_report,
        p.drawn(at).last_report_seq == p.last_report_seq,
{
}

} // verus!
