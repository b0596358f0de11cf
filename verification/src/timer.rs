//! Countdown timers driving tower firing and projectile expiry.
//!
//! A timer accumulates the elapsed milliseconds handed to `tick`.  A
//! repeating timer reports `just_finished` on exactly the ticks in which
//! the accumulated time crosses a new multiple of its duration, keeping
//! the remainder; missed whole intervals within one tick are dropped, so
//! it fires at most once per tick.  A one-shot timer reports
//! `just_finished` on the single tick in which the accumulated time first
//! reaches its duration, and stays finished afterwards.

use vstd::prelude::*;

use crate::units::{DT_LIMIT, DURATION_LIMIT};

verus! {

/// Whether a timer rearms itself after completing.
#[derive(Clone, Copy, Debug, PartialEq, Eq, Structural)]
pub enum TimerMode {
    /// Completes once and then stays finished.
    Once,
    /// Rearms on completion, keeping the overshoot as new progress.
    Repeating,
}

/// A countdown over milliseconds of accumulated tick time.
#[derive(Clone, Copy, Debug, PartialEq, Eq, Structural)]
pub struct Timer {
    pub mode: TimerMode,
    /// Configured interval, in milliseconds.
    pub duration_ms: u64,
    /// Accumulated progress towards the next completion, in milliseconds.
    pub elapsed_ms: u64,
    /// True exactly when the most recent `tick` completed the countdown.
    pub just_finished: bool,
}

impl Timer {
    /// Well-formedness: a positive, bounded duration and progress that
    /// never exceeds it (never reaches it for a repeating timer).
    pub open spec fn wf(self) -> bool {
        &&& 1 <= self.duration_ms <= DURATION_LIMIT
        &&& match self.mode {
            TimerMode::Once => self.elapsed_ms <= self.duration_ms,
            TimerMode::Repeating => self.elapsed_ms < self.duration_ms,
        }
    }

    /// A one-shot timer is finished once its progress reaches its duration.
    pub open spec fn is_finished(self) -> bool {
        self.elapsed_ms == self.duration_ms
    }

    /// The state after advancing by `dt` milliseconds.
    pub open spec fn spec_tick(self, dt: u64) -> Timer {
        match self.mode {
            TimerMode::Repeating => {
                if self.elapsed_ms + dt >= self.duration_ms {
                    Timer {
                        elapsed_ms: ((self.elapsed_ms + dt) % (self.duration_ms as int)) as u64,
                        just_finished: true,
                        ..self
                    }
                } else {
                    Timer { elapsed_ms: (self.elapsed_ms + dt) as u64, just_finished: false, ..self }
                }
            },
            TimerMode::Once => {
                if self.is_finished() {
                    Timer { just_finished: false, ..self }
                } else if self.elapsed_ms + dt >= self.duration_ms {
                    Timer { elapsed_ms: self.duration_ms, just_finished: true, ..self }
                } else {
                    Timer { elapsed_ms: (self.elapsed_ms + dt) as u64, just_finished: false, ..self }
                }
            },
        }
    }

    /// Advancing a well-formed timer yields a well-formed timer with the
    /// same mode and duration.
    pub proof fn lemma_spec_tick_wf(self, dt: u64)
        requires
            self.wf(),
            dt <= DT_LIMIT,
        ensures
            self.spec_tick(dt).wf(),
            self.spec_tick(dt).mode == self.mode,
            self.spec_tick(dt).duration_ms == self.duration_ms,
    {
        if self.mode is Repeating && self.elapsed_ms + dt >= self.duration_ms {
            vstd::arithmetic::div_mod::lemma_mod_division_less_than_divisor(
                self.elapsed_ms + dt,
                self.duration_ms as int,
            );
        }
    }

    /// A fresh repeating timer with the given interval.
    pub fn new_repeating(duration_ms: u64) -> (r: Timer)
        requires
            1 <= duration_ms <= DURATION_LIMIT,
        ensures
            r == (Timer {
                mode: TimerMode::Repeating,
                duration_ms,
                elapsed_ms: 0u64,
                just_finished: false,
            }),
            r.wf(),
    {
        Timer { mode: TimerMode::Repeating, duration_ms, elapsed_ms: 0, just_finished: false }
    }

    /// A fresh one-shot timer with the given duration.
    pub fn new_once(duration_ms: u64) -> (r: Timer)
        requires
            1 <= duration_ms <= DURATION_LIMIT,
        ensures
            r == (Timer {
                mode: TimerMode::Once,
                duration_ms,
                elapsed_ms: 0u64,
                just_finished: false,
            }),
            r.wf(),
    {
        Timer { mode: TimerMode::Once, duration_ms, elapsed_ms: 0, just_finished: false }
    }

    /// Advances the countdown by `dt` milliseconds.
    pub fn tick(&mut self, dt: u64)
        requires
            old(self).wf(),
            dt <= DT_LIMIT,
        ensures
            *final(self) == old(self).spec_tick(dt),
            final(self).wf(),
    {
        match self.mode {
            TimerMode::Repeating => {
                let e: u64 = self.elapsed_ms + dt;
                if e >= self.duration_ms {
                    self.elapsed_ms = e % self.duration_ms;
                    self.just_finished = true;
                } else {
                    self.elapsed_ms = e;
                    self.just_finished = false;
                }
            },
            TimerMode::Once => {
                if self.elapsed_ms == self.duration_ms {
                    self.just_finished = false;
                } else {
                    let e: u64 = self.elapsed_ms + dt;
                    if e >= self.duration_ms {
                        self.elapsed_ms = self.duration_ms;
                        self.just_finished = true;
                    } else {
                        self.elapsed_ms = e;
                        self.just_finished = false;
                    }
                }
            },
        }
    }
}

} // verus!
