//! One live study session: a start instant plus two sub-state timers (video,
//! break), each a reusable start/stop accumulator.
//!
//! All instants are readings of a monotonic clock, in whole seconds. A
//! session is well formed relative to the latest clock reading observed while
//! it was touched: every stored instant lies between the session start and
//! that reading, and each accumulator's total can never outgrow the session's
//! own elapsed time.

use vstd::prelude::*;

verus! {

/// A start/stop timer nested in a session. While `running_since` is set,
/// time is accruing; closing it folds the elapsed span into `accumulated`.
#[derive(Clone, Copy, PartialEq, Eq, Structural)]
pub struct Accumulator {
    pub running_since: Option<u64>,
    pub accumulated: u64,
}

/// Ghost model of an accumulator: an optional open instant and a total,
/// both as unbounded integers.
pub open spec fn acc_model_of(a: Accumulator) -> (Option<int>, int) {
    (
        match a.running_since {
            Some(s) => Some(s as int),
            None => None,
        },
        a.accumulated as int,
    )
}

/// One sub-state toggle: `true` opens at the given instant, `false` closes.
pub open spec fn acc_step(a: (Option<int>, int), e: (bool, int)) -> (Option<int>, int) {
    if e.0 {
        match a.0 {
            Some(_) => a,
            None => (Some(e.1), a.1),
        }
    } else {
        match a.0 {
            Some(s) => (None, a.1 + e.1 - s),
            None => a,
        }
    }
}

/// The time a single toggle deposits into the total: a closing toggle on a
/// running accumulator deposits the span since it opened; all else, nothing.
pub open spec fn acc_deposit(a: (Option<int>, int), e: (bool, int)) -> int {
    if !e.0 && a.0 is Some {
        e.1 - a.0->Some_0
    } else {
        0
    }
}

/// The accumulator after a whole sequence of toggles.
pub open spec fn acc_run(a: (Option<int>, int), es: Seq<(bool, int)>) -> (Option<int>, int)
    decreases es.len(),
{
    if es.len() == 0 {
        a
    } else {
        acc_run(acc_step(a, es[0]), es.skip(1))
    }
}

/// The sum of all deposits a sequence of toggles makes.
pub open spec fn acc_deposits(a: (Option<int>, int), es: Seq<(bool, int)>) -> int
    decreases es.len(),
{
    if es.len() == 0 {
        0
    } else {
        acc_deposit(a, es[0]) + acc_deposits(acc_step(a, es[0]), es.skip(1))
    }
}

/// Law: across any interleaving of open/close toggles — zero, one or many —
/// an accumulator's total grows by exactly the sum of the deposits the
/// toggles make.
pub proof fn lemma_toggle_deposits(a: (Option<int>, int), es: Seq<(bool, int)>)
    ensures
        acc_run(a, es).1 == a.1 + acc_deposits(a, es),
    decreases es.len(),
{
    if es.len() > 0 {
        lemma_toggle_deposits(acc_step(a, es[0]), es.skip(1));
    }
}

impl Accumulator {
    /// Within a session started at `start`, observed last at `clock`: any
    /// open instant lies inside `[start, clock]`, and the total (counting an
    /// open span up to `clock`) fits in the session's elapsed time.
    pub open spec fn wf(&self, start: int, clock: int) -> bool {
        match self.running_since {
            Some(s) => start <= s <= clock && self.accumulated + (clock - s) <= clock - start,
            None => self.accumulated <= clock - start,
        }
    }

    /// The total at instant `now`, counting a still-open span.
    pub open spec fn total_at(&self, now: int) -> int {
        self.accumulated + match self.running_since {
            Some(s) => now - s,
            None => 0int,
        }
    }

    pub fn new() -> (r: Accumulator)
        ensures
            r.running_since is None,
            r.accumulated == 0,
    {
        Accumulator { running_since: None, accumulated: 0 }
    }

    /// Starts the timer at `now`; a no-op if it is already running.
    pub fn open_at(&mut self, now: u64)
        ensures
            acc_model_of(*final(self)) == acc_step(acc_model_of(*old(self)), (true, now as int)),
            final(self).accumulated == old(self).accumulated,
            final(self).running_since == (match old(self).running_since {
                Some(s) => Some(s),
                None => Some(now),
            }),
    {
        if self.running_since.is_none() {
            self.running_since = Some(now);
        }
    }

    /// Stops the timer at `now`, folding the open span into the total; a
    /// no-op if it is not running.
    pub fn close_at(&mut self, now: u64)
        requires
            match old(self).running_since {
                Some(s) => s <= now && old(self).accumulated + (now - s) <= u64::MAX,
                None => true,
            },
        ensures
            acc_model_of(*final(self)) == acc_step(acc_model_of(*old(self)), (false, now as int)),
            final(self).running_since is None,
            final(self).accumulated == old(self).total_at(now as int),
    {
        if let Some(s) = self.running_since {
            self.accumulated = self.accumulated + (now - s);
            self.running_since = None;
        }
    }
}

/// One active study session: wall start plus the video and break timers.
pub struct SessionState {
    pub start: u64,
    pub video: Accumulator,
    pub breaks: Accumulator,
}

impl SessionState {
    /// Well-formedness relative to the latest clock reading `clock`.
    pub open spec fn wf(&self, clock: int) -> bool {
        &&& self.start <= clock
        &&& self.video.wf(self.start as int, clock)
        &&& self.breaks.wf(self.start as int, clock)
    }

    /// Well-formedness survives the clock moving forward.
    pub proof fn lemma_wf_monotone(&self, clock: int, later: int)
        requires
            self.wf(clock),
            clock <= later,
        ensures
            self.wf(later),
    {
    }

    /// A fresh session beginning at `now`: both timers empty and stopped.
    pub fn begin(now: u64) -> (s: SessionState)
        ensures
            s.start == now,
            s.video == (Accumulator { running_since: None, accumulated: 0 }),
            s.breaks == (Accumulator { running_since: None, accumulated: 0 }),
            s.wf(now as int),
    {
        SessionState { start: now, video: Accumulator::new(), breaks: Accumulator::new() }
    }

    /// Folds a still-running video span into the video total (the video
    /// counterpart of ending a stream), leaving the timer stopped.
    pub fn sum_video_progress(&mut self, now: u64)
        requires
            old(self).wf(now as int),
        ensures
            final(self).wf(now as int),
            final(self).start == old(self).start,
            final(self).breaks == old(self).breaks,
            final(self).video.running_since is None,
            final(self).video.accumulated == old(self).video.total_at(now as int),
    {
        self.video.close_at(now);
    }

    /// Folds a still-running break span into the break total.
    pub fn sum_break_progress(&mut self, now: u64)
        requires
            old(self).wf(now as int),
        ensures
            final(self).wf(now as int),
            final(self).start == old(self).start,
            final(self).video == old(self).video,
            final(self).breaks.running_since is None,
            final(self).breaks.accumulated == old(self).breaks.total_at(now as int),
    {
        self.breaks.close_at(now);
    }
}

/// The rejection of an administrative session whose claimed video time
/// exceeds its claimed total time.
#[derive(Clone, Copy, PartialEq, Eq, Structural, Debug)]
pub struct InvalidSimulationInput;

/// Builds the synthetic session an administrative finish works on: started
/// `length` seconds before `now`, with `video_length` of already-folded video
/// time and no break time. Rejected, before anything else, iff the video
/// time exceeds the total time.
pub fn synthetic_session(now: u64, length: u64, video_length: u64) -> (r: Result<
    SessionState,
    InvalidSimulationInput,
>)
    requires
        length <= now,
    ensures
        match r {
            Ok(s) => {
                &&& video_length <= length
                &&& s.start == now - length
                &&& s.video == (Accumulator { running_since: None, accumulated: video_length })
                &&& s.breaks == (Accumulator { running_since: None, accumulated: 0 })
                &&& s.wf(now as int)
            },
            Err(_) => video_length > length,
        },
{
    if video_length > length {
        Err(InvalidSimulationInput)
    } else {
        Ok(
            SessionState {
                start: now - length,
                video: Accumulator { running_since: None, accumulated: video_length },
                breaks: Accumulator::new(),
            },
        )
    }
}

} // verus!
