use vstd::prelude::*;

verus! {

/// Length of a walk step, in nanoseconds.
pub const WALK_NANOS: u64 = 200_000_000;

/// Length of a pick or drop action, in nanoseconds.
pub const ACTION_NANOS: u64 = 500_000_000;

/// A one-shot countdown owned by an acting entity, in nanoseconds.
/// `elapsed` runs up to `duration` and stays there.
#[derive(Clone, Copy, Debug, PartialEq, Eq, Structural)]
pub struct GridClock {
    pub duration: u64,
    pub elapsed: u64,
}

impl GridClock {
    pub open spec fn wf(&self) -> bool {
        self.elapsed <= self.duration
    }

    pub open spec fn finished_spec(&self) -> bool {
        self.elapsed >= self.duration
    }

    /// The clock after `delta` more nanoseconds: it accumulates and saturates at `duration`.
    pub open spec fn advanced(&self, delta: u64) -> GridClock {
        GridClock {
            duration: self.duration,
            elapsed: if self.elapsed + delta >= self.duration {
                self.duration
            } else {
                (self.elapsed + delta) as u64
            },
        }
    }

    /// A fresh clock of the given length, nothing elapsed yet.
    pub fn new(duration: u64) -> (r: GridClock)
        ensures
            r == (GridClock { duration, elapsed: 0 }),
    {
        GridClock { duration, elapsed: 0 }
    }

    pub fn advance(&mut self, delta: u64)
        requires
            old(self).wf(),
        ensures
            *final(self) == old(self).advanced(delta),
            final(self).wf(),
    {
        if delta >= self.duration - self.elapsed {
            self.elapsed = self.duration;
        } else {
            self.elapsed = self.elapsed + delta;
        }
    }

    pub fn is_finished(&self) -> (r: bool)
        ensures
            r == self.finished_spec(),
    {
        self.elapsed >= self.duration
    }

    /// Starts a new countdown: a zero length is finished at once.
    pub fn restart(&mut self, duration: u64)
        ensures
            *final(self) == (GridClock { duration, elapsed: 0 }),
    {
        self.duration = duration;
        self.elapsed = 0;
    }
}

} // verus!
