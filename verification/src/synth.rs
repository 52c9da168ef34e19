//! The conductor: a playback session over a built timeline, driven against
//! a caller-supplied wall clock. The state machine owns the event cursor
//! and all timestamp arithmetic; each `step` takes the current wall-clock
//! microsecond count and decides whether to dispatch the next event to the
//! sink, wait, or finish. Pause, resume, toggle and stop only flip control
//! flags, so they can be relayed from a control handle without touching the
//! cursor. Logical time is wall-clock time minus the accumulated paused
//! time, so paused intervals never count as musical progress.

use vstd::prelude::*;

use crate::midi::{Timed, Timeline};

verus! {

/// What the driver of a playback session must do next: hand an event to
/// the external sink, sleep for a bounded interval and step again, or stop
/// stepping because playback is done.
#[derive(Clone, Copy, Debug, PartialEq, Eq, Structural)]
pub enum Action {
    /// Dispatch this event to the sink, then step again at once.
    Dispatch(Timed),
    /// Sleep for at most this many microseconds, then step again. The bound
    /// keeps the session responsive to pause and stop.
    Wait(u64),
    /// Playback is over (end of events reached, or stop requested): no
    /// further sink calls are to be made.
    Done,
}

/// The observable state of a playback session.
pub ghost struct PlayerV {
    /// The timeline's events, in dispatch order.
    pub events: Seq<Timed>,
    /// How many events have been dispatched.
    pub cursor: nat,
    /// The pause flag (toggled by the control handle).
    pub paused: bool,
    /// The one-shot stop signal; never cleared once set.
    pub stop_requested: bool,
    /// Whether playback is over, as `is_finished` reports it.
    pub finished: bool,
    /// The wall-clock instant at which the current pause was first
    /// observed, if a pause is in progress.
    pub paused_since: Option<u64>,
    /// The total paused time accumulated so far, in microseconds.
    pub paused_total_us: u64,
}

impl PlayerV {
    /// The cursor never runs past the event list.
    pub open spec fn wf(self) -> bool {
        self.cursor <= self.events.len()
    }
}

/// One decision of the dispatch loop, as a function of the session state
/// and the wall clock `now` (microseconds since the session began):
/// a requested stop finishes at once; while paused the session waits,
/// remembering when the pause began; on resume the paused span is added
/// (saturating) to the accumulated paused time; when the events are
/// exhausted the session finishes; the next event is dispatched as soon as
/// logical time (`now` minus accumulated paused time) reaches its
/// timestamp, and otherwise the session waits a short bounded interval.
pub open spec fn spec_step(p: PlayerV, now: u64) -> (PlayerV, Action) {
    if p.stop_requested {
        (
            PlayerV {
                events: p.events,
                cursor: p.cursor,
                paused: p.paused,
                stop_requested: p.stop_requested,
                finished: true,
                paused_since: p.paused_since,
                paused_total_us: p.paused_total_us,
            },
            Action::Done,
        )
    } else if p.paused {
        (
            PlayerV {
                events: p.events,
                cursor: p.cursor,
                paused: p.paused,
                stop_requested: p.stop_requested,
                finished: p.finished,
                paused_since: if p.paused_since is None {
                    Some(now)
                } else {
                    p.paused_since
                },
                paused_total_us: p.paused_total_us,
            },
            Action::Wait(10000),
        )
    } else {
        let pt = match p.paused_since {
            Some(since) => p.paused_total_us.saturating_add(now.saturating_sub(since)),
            None => p.paused_total_us,
        };
        let p1 = PlayerV {
            events: p.events,
            cursor: p.cursor,
            paused: p.paused,
            stop_requested: p.stop_requested,
            finished: p.finished,
            paused_since: None,
            paused_total_us: pt,
        };
        if p1.cursor >= p1.events.len() {
            (
                PlayerV {
                    events: p1.events,
                    cursor: p1.cursor,
                    paused: p1.paused,
                    stop_requested: p1.stop_requested,
                    finished: true,
                    paused_since: p1.paused_since,
                    paused_total_us: p1.paused_total_us,
                },
                Action::Done,
            )
        } else {
            let e = p1.events[p1.cursor as int];
            let logical = now.saturating_sub(pt);
            if logical >= e.t_us {
                (
                    PlayerV {
                        events: p1.events,
                        cursor: p1.cursor + 1,
                        paused: p1.paused,
                        stop_requested: p1.stop_requested,
                        finished: p1.finished,
                        paused_since: p1.paused_since,
                        paused_total_us: p1.paused_total_us,
                    },
                    Action::Dispatch(e),
                )
            } else {
                let wait = e.t_us - logical;
                let ms = if wait / 1000 < 5 {
                    wait / 1000
                } else {
                    5
                };
                if ms > 0 {
                    (p1, Action::Wait((ms * 1000) as u64))
                } else {
                    (p1, Action::Wait(200))
                }
            }
        }
    }
}

/// A playback session: the timeline's events (owned by the session), the
/// cursor, and the control flags. Initial state is running at cursor zero.
#[derive(Debug)]
pub struct Player {
    events: Vec<Timed>,
    cursor: usize,
    paused: bool,
    stop_requested: bool,
    finished: bool,
    paused_since: Option<u64>,
    paused_total_us: u64,
}

impl View for Player {
    type V = PlayerV;

    closed spec fn view(&self) -> PlayerV {
        PlayerV {
            events: self.events@,
            cursor: self.cursor as nat,
            paused: self.paused,
            stop_requested: self.stop_requested,
            finished: self.finished,
            paused_since: self.paused_since,
            paused_total_us: self.paused_total_us,
        }
    }
}

impl Player {
    /// Start a playback session over a timeline. The event list is handed
    /// over by value: the session owns it from here on.
    pub fn begin(timeline: Timeline) -> (p: Player)
        ensures
            p@ == (PlayerV {
                events: timeline.events@,
                cursor: 0nat,
                paused: false,
                stop_requested: false,
                finished: false,
                paused_since: None,
                paused_total_us: 0u64,
            }),
            p@.wf(),
    {
        Player {
            events: timeline.events,
            cursor: 0,
            paused: false,
            stop_requested: false,
            finished: false,
            paused_since: None,
            paused_total_us: 0,
        }
    }

    /// Request a pause. Idempotent; a no-op once playback has finished.
    pub fn pause(&mut self)
        ensures
            final(self)@.paused == (!old(self)@.finished || old(self)@.paused),
            final(self)@.events == old(self)@.events,
            final(self)@.cursor == old(self)@.cursor,
            final(self)@.stop_requested == old(self)@.stop_requested,
            final(self)@.finished == old(self)@.finished,
            final(self)@.paused_since == old(self)@.paused_since,
            final(self)@.paused_total_us == old(self)@.paused_total_us,
    {
        if !self.finished {
            self.paused = true;
        }
    }

    /// Request a resume. Idempotent; a no-op once playback has finished.
    pub fn resume(&mut self)
        ensures
            final(self)@.paused == (old(self)@.finished && old(self)@.paused),
            final(self)@.events == old(self)@.events,
            final(self)@.cursor == old(self)@.cursor,
            final(self)@.stop_requested == old(self)@.stop_requested,
            final(self)@.finished == old(self)@.finished,
            final(self)@.paused_since == old(self)@.paused_since,
            final(self)@.paused_total_us == old(self)@.paused_total_us,
    {
        if !self.finished {
            self.paused = false;
        }
    }

    /// Flip between paused and running; a no-op once playback has finished.
    pub fn toggle(&mut self)
        ensures
            final(self)@.paused == (if old(self)@.finished {
                old(self)@.paused
            } else {
                !old(self)@.paused
            }),
            final(self)@.events == old(self)@.events,
            final(self)@.cursor == old(self)@.cursor,
            final(self)@.stop_requested == old(self)@.stop_requested,
            final(self)@.finished == old(self)@.finished,
            final(self)@.paused_since == old(self)@.paused_since,
            final(self)@.paused_total_us == old(self)@.paused_total_us,
    {
        if !self.finished {
            self.paused = !self.paused;
        }
    }

    /// Request a stop. One-shot and idempotent: the signal is never
    /// cleared, so every later `step` returns `Done` and dispatches
    /// nothing.
    pub fn stop(&mut self)
        ensures
            final(self)@.stop_requested,
            final(self)@.events == old(self)@.events,
            final(self)@.cursor == old(self)@.cursor,
            final(self)@.paused == old(self)@.paused,
            final(self)@.finished == old(self)@.finished,
            final(self)@.paused_since == old(self)@.paused_since,
            final(self)@.paused_total_us == old(self)@.paused_total_us,
    {
        self.stop_requested = true;
    }

    /// Non-blocking poll: has playback finished (by reaching the end, or by
    /// a stop observed by `step`)?
    pub fn is_finished(&self) -> (r: bool)
        ensures
            r == self@.finished,
    {
        self.finished
    }

    /// Take one decision of the dispatch loop at wall-clock time `now_us`
    /// (microseconds since the session began): exactly `spec_step`.
    pub fn step(&mut self, now_us: u64) -> (a: Action)
        requires
            old(self)@.wf(),
        ensures
            final(self)@.wf(),
            (final(self)@, a) == spec_step(old(self)@, now_us),
    {
        if self.stop_requested {
            self.finished = true;
            return Action::Done;
        }
        if self.paused {
            if self.paused_since.is_none() {
                self.paused_since = Some(now_us);
            }
            return Action::Wait(10_000);
        }
        match self.paused_since {
            Some(since) => {
                self.paused_total_us = self.paused_total_us.saturating_add(
                    now_us.saturating_sub(since),
                );
                self.paused_since = None;
            },
            None => {},
        }
        if self.cursor >= self.events.len() {
            self.finished = true;
            return Action::Done;
        }
        let e = self.events[self.cursor];
        let logical = now_us.saturating_sub(self.paused_total_us);
        if logical >= e.t_us {
            self.cursor = self.cursor + 1;
            return Action::Dispatch(e);
        }
        let wait = e.t_us - logical;
        let ms = if wait / 1000 < 5 {
            wait / 1000
        } else {
            5
        };
        if ms > 0 {
            Action::Wait(ms * 1000)
        } else {
            Action::Wait(200)
        }
    }
}

/// Once stop has been requested, a step dispatches nothing and marks the
/// session finished, and the stop request stays in place, so no later step
/// can dispatch either: after `stop()`, no further sink calls occur, and
/// `is_finished()` is true from the very next step on.
pub proof fn lemma_stop_is_final(p: PlayerV, now: u64)
    requires
        p.stop_requested,
    ensures
        ({
            let (q, a) = spec_step(p, now);
            &&& a is Done
            &&& !(a is Dispatch)
            &&& q.finished
            &&& q.stop_requested
            &&& q.cursor == p.cursor
        }),
{
}

/// No step ever clears the stop request, advances the cursor backwards, or
/// reduces the accumulated paused time.
pub proof fn lemma_step_monotone(p: PlayerV, now: u64)
    ensures
        spec_step(p, now).0.stop_requested == p.stop_requested,
        spec_step(p, now).0.cursor >= p.cursor,
        spec_step(p, now).0.paused_total_us >= p.paused_total_us,
        spec_step(p, now).0.events == p.events,
{
}

/// A paused session makes no musical progress: a step while paused
/// dispatches nothing, consumes no events, and adds nothing to logical
/// time.
pub proof fn lemma_paused_makes_no_progress(p: PlayerV, now: u64)
    requires
        !p.stop_requested,
        p.paused,
    ensures
        ({
            let (q, a) = spec_step(p, now);
            &&& !(a is Dispatch)
            &&& q.cursor == p.cursor
            &&& q.paused_total_us == p.paused_total_us
        }),
{
}

/// The step that resumes after a pause that began at wall time `s` adds
/// the whole paused span `now - s` (saturating) to the accumulated paused
/// time.
pub proof fn lemma_resume_accumulates_pause(p: PlayerV, now: u64, s: u64)
    requires
        !p.stop_requested,
        !p.paused,
        p.paused_since == Some(s),
        s <= now,
    ensures
        spec_step(p, now).0.paused_total_us == p.paused_total_us.saturating_add((now - s) as u64),
{
}

/// An event is dispatched only once logical time (wall clock minus the
/// accumulated paused time) has reached its timestamp. So pausing for a
/// span delays every later dispatch by at least that span of wall-clock
/// time: the accumulated paused time only grows, and the wall clock must
/// additionally cover it before the event's own timestamp is reached.
pub proof fn lemma_dispatch_respects_pause(p: PlayerV, now: u64)
    requires
        spec_step(p, now).1 is Dispatch,
    ensures
        ({
            let (q, a) = spec_step(p, now);
            &&& (a matches Action::Dispatch(e) ==> now.saturating_sub(q.paused_total_us)
                >= e.t_us)
            &&& (a matches Action::Dispatch(e) ==> (q.paused_total_us <= now ==> now >= e.t_us
                + q.paused_total_us))
        }),
{
}

} // verus!
