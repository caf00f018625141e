//! Countdowns measured in whole milliseconds.
use vstd::prelude::*;

verus! {

/// What a countdown does once its period has been reached.
#[derive(Clone, Copy, Debug, PartialEq, Eq, Structural)]
pub enum TimerMode {
    /// Fires once, then stays elapsed.
    Once,
    /// Fires every period and wraps around.
    Repeating,
}

/// A countdown of `period` milliseconds that has run for `elapsed` of them.
///
/// `finished` holds, for a one-shot countdown, once the period has been
/// reached; for a repeating one, when the last tick completed a cycle.
#[derive(Clone, Copy, Debug, PartialEq, Eq, Structural)]
pub struct Countdown {
    pub elapsed: u64,
    pub period: u64,
    pub mode: TimerMode,
    pub finished: bool,
}

/// Colour band of a countdown's progress bar.
#[derive(Clone, Copy, Debug, PartialEq, Eq, Structural)]
pub enum ProgressBand {
    /// Less than 30% of the period has elapsed.
    Low,
    /// At least 30% and less than 60%.
    Mid,
    /// 60% or more.
    High,
}

impl Countdown {
    /// A well-formed countdown: a positive period, elapsed time within it,
    /// and a one-shot countdown is finished exactly when it is full.
    pub open spec fn wf(self) -> bool {
        &&& self.period > 0
        &&& match self.mode {
            TimerMode::Once => self.elapsed <= self.period && (self.finished <==> self.elapsed
                == self.period),
            TimerMode::Repeating => self.elapsed < self.period,
        }
    }

    /// The countdown after `delta` more milliseconds.
    pub open spec fn ticked(self, delta: nat) -> Countdown {
        let t = self.elapsed + delta;
        match self.mode {
            TimerMode::Once => if self.finished {
                self
            } else if t >= self.period {
                Countdown { elapsed: self.period, finished: true, ..self }
            } else {
                Countdown { elapsed: t as u64, finished: false, ..self }
            },
            TimerMode::Repeating => if t >= self.period {
                Countdown { elapsed: (t % (self.period as int)) as u64, finished: true, ..self }
            } else {
                Countdown { elapsed: t as u64, finished: false, ..self }
            },
        }
    }

    /// The progress band of `elapsed / period`.
    pub open spec fn band_of(self) -> ProgressBand {
        if self.elapsed * 10 < self.period * 3 {
            ProgressBand::Low
        } else if self.elapsed * 10 < self.period * 6 {
            ProgressBand::Mid
        } else {
            ProgressBand::High
        }
    }

    /// A fresh countdown of `period` milliseconds; a zero period is refused.
    pub fn new(period: u64, mode: TimerMode) -> (r: Option<Countdown>)
        ensures
            period == 0 <==> r is None,
            r matches Some(c) ==> c.wf() && c.elapsed == 0 && !c.finished && c.period == period
                && c.mode == mode,
    {
        if period == 0 {
            None
        } else {
            Some(Countdown { elapsed: 0, period, mode, finished: false })
        }
    }

    /// Advances the countdown by `delta` milliseconds.
    pub fn tick(&mut self, delta: u64)
        requires
            old(self).wf(),
        ensures
            *final(self) == old(self).ticked(delta as nat),
            final(self).wf(),
    {
        let t: u128 = self.elapsed as u128 + delta as u128;
        match self.mode {
            TimerMode::Once => {
                if !self.finished {
                    if t >= self.period as u128 {
                        self.elapsed = self.period;
                        self.finished = true;
                    } else {
                        self.elapsed = t as u64;
                        self.finished = false;
                    }
                }
            },
            TimerMode::Repeating => {
                if t >= self.period as u128 {
                    let r: u128 = t % (self.period as u128);
                    self.elapsed = r as u64;
                    self.finished = true;
                } else {
                    self.elapsed = t as u64;
                    self.finished = false;
                }
            },
        }
    }

    /// Whether the countdown is finished (see the type's documentation).
    pub fn finished(&self) -> (r: bool)
        ensures
            r == self.finished,
    {
        self.finished
    }

    /// Colour band of the progress bar: elapsed time over the period.
    pub fn progress_band(&self) -> (r: ProgressBand)
        requires
            self.wf(),
        ensures
            r == self.band_of(),
    {
        let e: u128 = self.elapsed as u128 * 10;
        if e < self.period as u128 * 3 {
            ProgressBand::Low
        } else if e < self.period as u128 * 6 {
            ProgressBand::Mid
        } else {
            ProgressBand::High
        }
    }
}

} // verus!
