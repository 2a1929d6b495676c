//! The windowed throughput estimator, used for diagnostics only.
//!
//! Byte counts accumulate inside a fixed window (one second by default).
//! The call that crosses the window boundary claims it: it takes the
//! accumulated count and the window's actual length out for display and
//! restarts the window; every other call just accumulates. The caller
//! supplies the clock as microseconds on a monotonic scale and performs the
//! one division the report needs.

use vstd::prelude::*;

verus! {

/// The display unit for one throughput report, chosen from the total bits
/// of the closed window: at least 1024 x 1024 bits reads best in megabits
/// per second, at least 1024 in kilobits, anything less in plain bits.
#[derive(Clone, Copy, Debug, PartialEq, Eq, Structural)]
pub enum RateUnit {
    Bps,
    Kbps,
    Mbps,
}

impl RateUnit {
    /// The unit's display label.
    pub fn label(self) -> (s: &'static str)
        ensures
            self is Bps ==> s@ == "bps"@,
            self is Kbps ==> s@ == "kbps"@,
            self is Mbps ==> s@ == "mbps"@,
    {
        match self {
            RateUnit::Bps => "bps",
            RateUnit::Kbps => "kbps",
            RateUnit::Mbps => "mbps",
        }
    }
}

/// The unit a window with `total_bytes` accumulated bytes is reported in.
pub open spec fn unit_for(total_bytes: nat) -> RateUnit {
    if total_bytes * 8 >= 1024 * 1024 {
        RateUnit::Mbps
    } else if total_bytes * 8 >= 1024 {
        RateUnit::Kbps
    } else {
        RateUnit::Bps
    }
}

/// One closed accounting window: everything a throughput report needs.
/// The rate itself is `bytes` x 8 / (`elapsed_micros` / 10^6) bits per
/// second, scaled by the unit; the division is the display's affair.
#[derive(Clone, Copy, Debug, PartialEq, Eq, Structural)]
pub struct RateSample {
    /// Bytes accumulated over the window; never zero.
    pub bytes: u64,
    /// The window's actual length in microseconds.
    pub elapsed_micros: u64,
    /// The unit the rate reads best in.
    pub unit: RateUnit,
}

/// The report `update` returns for a counter in state `c` handed `bytes`
/// more bytes at `now`: nothing while the window has not run its length,
/// nothing at a boundary that accumulated no bytes at all, otherwise the
/// closed window.
pub open spec fn update_report(c: DataRateCounter, bytes: int, now: int) -> Option<RateSample> {
    let elapsed = now - c.window_start;
    let total = c.count + bytes;
    if elapsed < c.window_micros {
        None
    } else if total == 0 {
        None
    } else {
        Some(
            RateSample {
                bytes: total as u64,
                elapsed_micros: elapsed as u64,
                unit: unit_for(total as nat),
            },
        )
    }
}

/// The counter state after `update`: inside the window the count grows and
/// nothing else moves; at the boundary the window restarts at `now` with a
/// zero count.
pub open spec fn update_next(c: DataRateCounter, bytes: int, now: int) -> DataRateCounter {
    let elapsed = now - c.window_start;
    let total = c.count + bytes;
    if elapsed < c.window_micros {
        DataRateCounter {
            count: total as u64,
            window_start: c.window_start,
            window_micros: c.window_micros,
        }
    } else {
        DataRateCounter { count: 0, window_start: now as u64, window_micros: c.window_micros }
    }
}

/// The accumulating byte counter and its window.
pub struct DataRateCounter {
    /// Bytes accumulated since the window started.
    pub count: u64,
    /// When the current window started, in microseconds.
    pub window_start: u64,
    /// The configured window length in microseconds.
    pub window_micros: u64,
}

/// The default window length: one second.
pub const DEFAULT_WINDOW_MICROS: u64 = 1000000;

impl DataRateCounter {
    /// A window length was configured.
    pub open spec fn wf(self) -> bool {
        self.window_micros > 0
    }

    /// A counter with the given window, whose first window starts at
    /// `now_micros`.
    pub fn new(window_micros: u64, now_micros: u64) -> (r: DataRateCounter)
        requires
            window_micros > 0,
        ensures
            r.wf(),
            r.count == 0,
            r.window_start == now_micros,
            r.window_micros == window_micros,
    {
        DataRateCounter { count: 0, window_start: now_micros, window_micros }
    }

    /// Adds `bytes` to the running count. Before the window has run its
    /// configured length, nothing is reported and the count is retained.
    /// The call that crosses the boundary restarts the window at
    /// `now_micros` with a zero count and reports the closed window —
    /// unless it accumulated nothing at all, in which case there is no
    /// report, only the restart.
    pub fn update(&mut self, bytes: u64, now_micros: u64) -> (r: Option<RateSample>)
        requires
            old(self).wf(),
            old(self).window_start <= now_micros,
            old(self).count + bytes <= u64::MAX,
        ensures
            final(self).wf(),
            *final(self) == update_next(*old(self), bytes as int, now_micros as int),
            r == update_report(*old(self), bytes as int, now_micros as int),
    {
        let elapsed = now_micros - self.window_start;
        if elapsed < self.window_micros {
            self.count = self.count + bytes;
            None
        } else {
            let total = self.count + bytes;
            self.count = 0;
            self.window_start = now_micros;
            if total == 0 {
                None
            } else {
                let unit = if total >= 131072 {
                    RateUnit::Mbps
                } else if total >= 128 {
                    RateUnit::Kbps
                } else {
                    RateUnit::Bps
                };
                Some(RateSample { bytes: total, elapsed_micros: elapsed, unit })
            }
        }
    }
}

impl Default for DataRateCounter {
    /// A counter with the default one-second window, whose first window
    /// starts at the clock's origin.
    fn default() -> (r: DataRateCounter)
        ensures
            r.wf(),
            r.count == 0,
            r.window_start == 0,
            r.window_micros == DEFAULT_WINDOW_MICROS,
    {
        DataRateCounter { count: 0, window_start: 0, window_micros: DEFAULT_WINDOW_MICROS }
    }
}

} // verus!
