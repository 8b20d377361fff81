//! Execution speed, measured over windows of about a second of wall time.

use vstd::prelude::*;

verus! {

/// How long a window is, in microseconds.
pub const WINDOW_US: u64 = 1_000_000;

/// What happened in a window: instructions executed, the time spent executing
/// them and the window's own time in microseconds, and what the decode cache
/// had and had not.
#[derive(Clone, Copy, Debug, PartialEq, Eq, Structural)]
pub struct Window {
    pub executed: u64,
    pub exec_us: u64,
    pub wall_us: u64,
    pub hits: u64,
    pub misses: u64,
}

#[derive(Clone, Copy, Debug, PartialEq, Eq, Structural)]
pub struct ExecStats {
    /// Instructions executed and time spent executing them in the current
    /// window.
    pub executed: u64,
    pub exec_us: u64,
    /// The decode cache's totals at the window's start.
    pub hits_mark: u64,
    pub misses_mark: u64,
    /// The last complete window.
    pub last: Window,
    pub total_executed: u64,
}

impl ExecStats {
    pub fn new() -> (stats: Self)
        ensures
            stats == (ExecStats {
                executed: 0,
                exec_us: 0,
                hits_mark: 0,
                misses_mark: 0,
                last: Window { executed: 0, exec_us: 0, wall_us: 0, hits: 0, misses: 0 },
                total_executed: 0,
            }),
    {
        ExecStats {
            executed: 0,
            exec_us: 0,
            hits_mark: 0,
            misses_mark: 0,
            last: Window { executed: 0, exec_us: 0, wall_us: 0, hits: 0, misses: 0 },
            total_executed: 0,
        }
    }

    /// Account for one execution batch: `executed` instructions (not counting
    /// time skipped while halted) took `exec_us` of host time. `cache_hits`
    /// and `cache_misses` are the decode cache's running totals, and
    /// `wall_us` is the time since the window began. Returns whether the
    /// window is complete, and another begins.
    pub fn record_batch(
        &mut self,
        executed: u64,
        exec_us: u64,
        wall_us: u64,
        cache_hits: u64,
        cache_misses: u64,
    ) -> (complete: bool)
        requires
            old(self).executed + executed <= u64::MAX,
            old(self).exec_us + exec_us <= u64::MAX,
            old(self).total_executed + executed <= u64::MAX,
            old(self).hits_mark <= cache_hits,
            old(self).misses_mark <= cache_misses,
        ensures
            complete == (wall_us >= WINDOW_US),
            *final(self) == (if complete {
                ExecStats {
                    executed: 0,
                    exec_us: 0,
                    hits_mark: cache_hits,
                    misses_mark: cache_misses,
                    last: Window {
                        executed: (old(self).executed + executed) as u64,
                        exec_us: (old(self).exec_us + exec_us) as u64,
                        wall_us,
                        hits: (cache_hits - old(self).hits_mark) as u64,
                        misses: (cache_misses - old(self).misses_mark) as u64,
                    },
                    total_executed: (old(self).total_executed + executed) as u64,
                }
            } else {
                ExecStats {
                    executed: (old(self).executed + executed) as u64,
                    exec_us: (old(self).exec_us + exec_us) as u64,
                    total_executed: (old(self).total_executed + executed) as u64,
                    ..*old(self)
                }
            }),
    {
        self.executed = self.executed + executed;
        self.exec_us = self.exec_us + exec_us;
        self.total_executed = self.total_executed + executed;
        if wall_us >= WINDOW_US {
            self.last = Window {
                executed: self.executed,
                exec_us: self.exec_us,
                wall_us,
                hits: cache_hits - self.hits_mark,
                misses: cache_misses - self.misses_mark,
            };
            self.hits_mark = cache_hits;
            self.misses_mark = cache_misses;
            self.executed = 0;
            self.exec_us = 0;
            return true;
        }
        false
    }
}

/// Frames shown, and how many in how long the last time that was measured.
#[derive(Clone, Copy, Debug, PartialEq, Eq, Structural)]
pub struct FrameRate {
    pub frames: u64,
    pub mark: u64,
    pub measured: u64,
    pub measured_us: u64,
}

impl FrameRate {
    pub fn new() -> (rate: Self)
        ensures
            rate == (FrameRate { frames: 0, mark: 0, measured: 0, measured_us: 0 }),
    {
        FrameRate { frames: 0, mark: 0, measured: 0, measured_us: 0 }
    }

    /// Count a frame, `elapsed_us` after the measurement began. Returns
    /// whether it is done, and another begins.
    pub fn count(&mut self, elapsed_us: u64) -> (done: bool)
        requires
            old(self).mark <= old(self).frames < u64::MAX,
        ensures
            done == (elapsed_us >= WINDOW_US),
            final(self).mark <= final(self).frames,
            *final(self) == (if done {
                FrameRate {
                    frames: (old(self).frames + 1) as u64,
                    mark: (old(self).frames + 1) as u64,
                    measured: (old(self).frames + 1 - old(self).mark) as u64,
                    measured_us: elapsed_us,
                }
            } else {
                FrameRate { frames: (old(self).frames + 1) as u64, ..*old(self) }
            }),
    {
        self.frames = self.frames + 1;
        if elapsed_us >= WINDOW_US {
            self.measured = self.frames - self.mark;
            self.measured_us = elapsed_us;
            self.mark = self.frames;
            return true;
        }
        false
    }
}

} // verus!
