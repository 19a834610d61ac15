//! Timing decisions of the rotor angle estimator: when a sensor reading
//! starts the estimate, is ignored, or is integrated, and how long an
//! estimate may be extrapolated. The angle arithmetic itself is done by the
//! caller; times are in microseconds.
use vstd::prelude::*;

verus! {

/// Longest time (µs) after the last reading for which the angle is still
/// extrapolated.
pub const STALE_AFTER_US: u64 = 50_000;

/// How the estimator uses a reading.
#[derive(Debug, Clone, Copy, PartialEq, Eq, Structural)]
pub enum ReadingUse {
    /// First reading: take its angle as is, with zero velocity.
    Initialize,
    /// No time passed since the previous reading: ignore it.
    Skip,
    /// Integrate it over this many microseconds.
    Integrate { elapsed_us: u64 },
}

/// Whether the estimator has a reading, and the time of the last one used.
pub struct ReadingClock {
    pub initialized: bool,
    pub last_us: u64,
}

impl ReadingClock {
    pub fn new() -> (c: ReadingClock)
        ensures
            !c.initialized,
            c.last_us == 0,
    {
        ReadingClock { initialized: false, last_us: 0 }
    }

    /// Classifies a reading taken at `time_us`; readings never go back in
    /// time once the clock is running.
    pub fn on_reading(&mut self, time_us: u64) -> (u: ReadingUse)
        requires
            old(self).initialized ==> old(self).last_us <= time_us,
        ensures
            !old(self).initialized ==> u is Initialize && final(self).initialized
                && final(self).last_us == time_us,
            old(self).initialized && time_us == old(self).last_us ==> u is Skip && *final(self)
                == *old(self),
            old(self).initialized && time_us > old(self).last_us ==> u == (ReadingUse::Integrate {
                elapsed_us: (time_us - old(self).last_us) as u64,
            }) && final(self).initialized && final(self).last_us == time_us,
    {
        if !self.initialized {
            self.initialized = true;
            self.last_us = time_us;
            return ReadingUse::Initialize;
        }
        let elapsed_us = time_us - self.last_us;
        if elapsed_us == 0 {
            return ReadingUse::Skip;
        }
        self.last_us = time_us;
        ReadingUse::Integrate { elapsed_us }
    }

    /// Time since the last reading, when the angle may be extrapolated that
    /// far: there is a reading and it is at most `STALE_AFTER_US` old.
    pub fn extrapolation(&self, now_us: u64) -> (r: Option<u64>)
        requires
            self.initialized ==> self.last_us <= now_us,
        ensures
            self.initialized && now_us - self.last_us <= STALE_AFTER_US ==> r == Some(
                (now_us - self.last_us) as u64,
            ),
            !(self.initialized && now_us - self.last_us <= STALE_AFTER_US) ==> r is None,
    {
        if !self.initialized {
            return None;
        }
        let elapsed = now_us - self.last_us;
        if elapsed > STALE_AFTER_US {
            None
        } else {
            Some(elapsed)
        }
    }
}

} // verus!
