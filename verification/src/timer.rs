//! Session timer: a state machine over explicit clock readings.
//!
//! The timer never reads a clock itself; every query that depends on
//! the current time takes it as a `now_ms` argument (milliseconds on
//! some monotonic scale chosen by the host). The three states are: not
//! started (`start_ms` empty), running (`start_ms` set, `end_ms`
//! empty), and stopped (both set).

use vstd::prelude::*;

verus! {

/// Milliseconds in `secs` seconds, saturating at the largest `u64`.
pub open spec fn secs_to_ms(secs: u64) -> u64 {
    if secs * 1000 <= u64::MAX {
        (secs * 1000) as u64
    } else {
        u64::MAX
    }
}

/// `a - b`, saturating at zero.
pub open spec fn sat_sub(a: u64, b: u64) -> u64 {
    if a >= b {
        (a - b) as u64
    } else {
        0
    }
}

pub struct Timer {
    /// Clock reading at the first accepted keystroke, once one arrived.
    pub start_ms: Option<u64>,
    /// Clock reading at natural completion, once it happened.
    pub end_ms: Option<u64>,
    /// Configured total duration, in milliseconds.
    pub duration_ms: u64,
    /// Whether the duration was chosen by the user rather than defaulted;
    /// an explicit duration doubles as the scoring denominator while the
    /// timer still runs.
    pub explicit_duration: bool,
}

/// `t` after a `start` at reading `now_ms`: unchanged if already started.
pub open spec fn started_at(t: Timer, now_ms: u64) -> Timer {
    if t.start_ms is None {
        Timer { start_ms: Some(now_ms), ..t }
    } else {
        t
    }
}

/// `t` after a `stop` at reading `now_ms`: unchanged unless running.
pub open spec fn stopped_at(t: Timer, now_ms: u64) -> Timer {
    if t.running() {
        Timer { end_ms: Some(now_ms), ..t }
    } else {
        t
    }
}

/// The configured duration has run out at reading `now_ms`.
pub open spec fn expired(t: Timer, now_ms: u64) -> bool {
    t.running() && sat_sub(now_ms, t.start_ms->0) >= t.duration_ms
}

impl Timer {
    /// The timer is running: started and not yet stopped.
    pub open spec fn running(self) -> bool {
        self.start_ms is Some && self.end_ms is None
    }

    /// Elapsed milliseconds at reading `now_ms`: time since start while
    /// running, zero otherwise.
    pub open spec fn elapsed_spec(self, now_ms: u64) -> u64 {
        if self.running() {
            sat_sub(now_ms, self.start_ms->0)
        } else {
            0
        }
    }

    /// A fresh timer for a session of `duration_secs` seconds.
    pub fn new(duration_secs: u64, explicit_duration: bool) -> (t: Timer)
        ensures
            t.start_ms is None,
            t.end_ms is None,
            t.duration_ms == secs_to_ms(duration_secs),
            t.explicit_duration == explicit_duration,
    {
        let duration_ms = match duration_secs.checked_mul(1000) {
            Some(ms) => ms,
            None => u64::MAX,
        };
        Timer { start_ms: None, end_ms: None, duration_ms, explicit_duration }
    }

    /// Start running at `now_ms`; a no-op if already started.
    pub fn start(&mut self, now_ms: u64)
        ensures
            *final(self) == started_at(*old(self), now_ms),
    {
        if self.start_ms.is_none() {
            self.start_ms = Some(now_ms);
        }
    }

    /// Stop at `now_ms`; a no-op unless running, so idempotent.
    pub fn stop(&mut self, now_ms: u64)
        ensures
            *final(self) == stopped_at(*old(self), now_ms),
    {
        if self.start_ms.is_some() && self.end_ms.is_none() {
            self.end_ms = Some(now_ms);
        }
    }

    pub fn is_started(&self) -> (r: bool)
        ensures
            r == (self.start_ms is Some),
    {
        self.start_ms.is_some()
    }

    pub fn is_stopped(&self) -> (r: bool)
        ensures
            r == (self.end_ms is Some),
    {
        self.end_ms.is_some()
    }

    /// Milliseconds elapsed at reading `now_ms` while running; zero when
    /// not started or already stopped.
    pub fn get_elapsed(&self, now_ms: u64) -> (r: u64)
        ensures
            r == self.elapsed_spec(now_ms),
    {
        match self.start_ms {
            Some(start) => {
                if self.end_ms.is_none() {
                    now_ms.saturating_sub(start)
                } else {
                    0
                }
            },
            None => 0,
        }
    }

    /// Whole seconds left of the configured duration at reading `now_ms`.
    pub fn get_remaining(&self, now_ms: u64) -> (r: u64)
        ensures
            r == sat_sub(self.duration_ms / 1000, self.elapsed_spec(now_ms) / 1000),
    {
        let elapsed = self.get_elapsed(now_ms);
        (self.duration_ms / 1000).saturating_sub(elapsed / 1000)
    }

    /// The configured duration has run out: running, and at least
    /// `duration_ms` has passed since the start.
    pub fn is_out_of_time(&self, now_ms: u64) -> (r: bool)
        ensures
            r == expired(*self, now_ms),
    {
        match self.start_ms {
            Some(start) => self.end_ms.is_none() && now_ms.saturating_sub(start)
                >= self.duration_ms,
            None => false,
        }
    }

    /// Back to not started; the configured duration is kept.
    pub fn reset(&mut self)
        ensures
            *final(self) == (Timer { start_ms: None, end_ms: None, ..*old(self) }),
    {
        self.start_ms = None;
        self.end_ms = None;
    }

    /// Scoring denominator in milliseconds: the configured duration
    /// while an explicitly configured timer still runs; the measured
    /// span once stopped; the elapsed time for a defaulted timer that
    /// still runs; zero before the first keystroke.
    pub fn get_time(&self, now_ms: u64) -> (r: u64)
        ensures
            self.explicit_duration && self.end_ms is None ==> r == self.duration_ms,
            !(self.explicit_duration && self.end_ms is None) ==> match (
                self.start_ms,
                self.end_ms,
            ) {
                (Some(start), Some(end)) => r == sat_sub(end, start),
                (Some(start), None) => r == sat_sub(now_ms, start),
                (None, _) => r == 0,
            },
    {
        if self.explicit_duration && self.end_ms.is_none() {
            return self.duration_ms;
        }
        match (self.start_ms, self.end_ms) {
            (Some(start), Some(end)) => end.saturating_sub(start),
            (Some(start), None) => now_ms.saturating_sub(start),
            (None, _) => 0,
        }
    }
}

} // verus!
