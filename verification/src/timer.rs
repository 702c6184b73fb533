//! Timers that count elapsed microseconds up to a target duration.
use vstd::prelude::*;

verus! {

/// What a timer does once its target is reached.
#[derive(Clone, Copy, Debug, PartialEq, Eq, Structural)]
pub enum TimerMode {
    /// The timer stops at its target and stays finished until it is reset.
    Once,
    /// The timer wraps around its target and reports completion for one tick.
    Repeating,
}

/// The mathematical state of a [`Timer`]; durations are in microseconds.
pub struct TimerState {
    pub elapsed: nat,
    pub duration: nat,
    pub mode: TimerMode,
    pub finished: bool,
}

impl TimerState {
    /// A timer that has not run yet.
    pub open spec fn fresh(duration: nat, mode: TimerMode) -> TimerState {
        TimerState { elapsed: 0, duration, mode, finished: false }
    }

    /// The state after `delta` more microseconds.
    ///
    /// A finished one-shot timer ignores the tick. Otherwise the time is
    /// added, and the timer is finished when the sum reaches the target: a
    /// one-shot timer then rests exactly on its target, a repeating one keeps
    /// the remainder.
    pub open spec fn tick(self, delta: nat) -> TimerState {
        if self.mode == TimerMode::Once && self.finished {
            self
        } else if self.elapsed + delta < self.duration {
            TimerState { elapsed: self.elapsed + delta, finished: false, ..self }
        } else if self.mode == TimerMode::Once || self.duration == 0 {
            TimerState { elapsed: self.duration, finished: true, ..self }
        } else {
            TimerState { elapsed: (self.elapsed + delta) % self.duration, finished: true, ..self }
        }
    }

    /// The state after a reset: nothing elapsed, not finished.
    pub open spec fn reset(self) -> TimerState {
        TimerState { elapsed: 0, finished: false, ..self }
    }

    /// The same state with another target.
    pub open spec fn with_duration(self, duration: nat) -> TimerState {
        TimerState { duration, ..self }
    }
}

/// A timer finishes only when the time counted has reached its target.
pub proof fn lemma_finishes_on_target(t: TimerState, delta: nat)
    requires
        !t.finished,
        t.tick(delta).finished,
    ensures
        t.elapsed + delta >= t.duration,
{
}

/// A finished one-shot timer stays as it is, whatever time passes and
/// whatever target it is given, until it is reset.
pub proof fn lemma_stays_finished(t: TimerState, delta: nat, duration: nat)
    requires
        t.mode == TimerMode::Once,
        t.finished,
    ensures
        t.tick(delta) == t,
        t.with_duration(duration).finished,
        !t.reset().finished,
{
}

/// On a one-shot timer two ticks count as one tick of their sum.
pub proof fn lemma_ticks_add_up(t: TimerState, a: nat, b: nat)
    requires
        t.mode == TimerMode::Once,
    ensures
        t.tick(a).tick(b) == t.tick(a + b),
{
}

/// A timer driven by explicit ticks.
#[derive(Clone, Copy, Debug)]
pub struct Timer {
    elapsed: u64,
    duration: u64,
    mode: TimerMode,
    finished: bool,
}

impl View for Timer {
    type V = TimerState;

    closed spec fn view(&self) -> TimerState {
        TimerState {
            elapsed: self.elapsed as nat,
            duration: self.duration as nat,
            mode: self.mode,
            finished: self.finished,
        }
    }
}

impl Timer {
    /// A timer with the given target in microseconds that has not run yet.
    pub fn new(duration: u64, mode: TimerMode) -> (t: Timer)
        ensures
            t@ == TimerState::fresh(duration as nat, mode),
    {
        Timer { elapsed: 0, duration, mode, finished: false }
    }

    /// Advances the timer by `delta` microseconds.
    pub fn tick(&mut self, delta: u64)
        ensures
            final(self)@ == old(self)@.tick(delta as nat),
    {
        let once = match self.mode {
            TimerMode::Once => true,
            TimerMode::Repeating => false,
        };
        if once && self.finished {
            return ;
        }
        let total: u128 = self.elapsed as u128 + delta as u128;
        if total < self.duration as u128 {
            self.elapsed = total as u64;
            self.finished = false;
        } else if once || self.duration == 0 {
            self.elapsed = self.duration;
            self.finished = true;
        } else {
            self.elapsed = (total % (self.duration as u128)) as u64;
            self.finished = true;
        }
    }

    /// Starts the timer over.
    pub fn reset(&mut self)
        ensures
            final(self)@ == old(self)@.reset(),
    {
        self.elapsed = 0;
        self.finished = false;
    }

    /// Replaces the target; elapsed time and the finished flag stay.
    pub fn set_duration(&mut self, duration: u64)
        ensures
            final(self)@ == old(self)@.with_duration(duration as nat),
    {
        self.duration = duration;
    }

    /// Whether the target has been reached.
    pub fn finished(&self) -> (b: bool)
        ensures
            b == self@.finished,
    {
        self.finished
    }

    /// Microseconds counted so far.
    pub fn elapsed(&self) -> (e: u64)
        ensures
            e == self@.elapsed,
    {
        self.elapsed
    }

    /// The target in microseconds.
    pub fn duration(&self) -> (d: u64)
        ensures
            d == self@.duration,
    {
        self.duration
    }

    /// The timer's mode.
    pub fn mode(&self) -> (m: TimerMode)
        ensures
            m == self@.mode,
    {
        self.mode
    }
}

} // verus!
