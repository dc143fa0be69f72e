//! Timing rules of the engine loops: throttled periodic work, detection
//! of stalls between pen reports, and config hot-reload.

use vstd::prelude::*;
use crate::tablet::{is_active_report, TabletStatus};

verus! {

/// Microseconds from `since` to `now` on a monotonic clock, zero if `now`
/// is earlier (as `Instant::duration_since` saturates).
pub open spec fn elapsed(now: u64, since: u64) -> nat {
    if now >= since {
        (now - since) as nat
    } else {
        0
    }
}

fn elapsed_us(now: u64, since: u64) -> (e: u64)
    ensures
        e == elapsed(now, since),
{
    if now >= since {
        now - since
    } else {
        0
    }
}

/// Periodic work that runs at most once per interval: when at least
/// (`inclusive`) or more than (not `inclusive`) `interval_us` have passed
/// since it last ran.
pub struct Throttle {
    interval_us: u64,
    inclusive: bool,
    last_us: u64,
}

/// Whether a throttle that last ran at `last` is due at `now`.
pub open spec fn due(interval: u64, inclusive: bool, last: u64, now: u64) -> bool {
    if inclusive {
        elapsed(now, last) >= interval
    } else {
        elapsed(now, last) > interval
    }
}

impl Throttle {
    pub closed spec fn interval(&self) -> u64 {
        self.interval_us
    }

    pub closed spec fn is_inclusive(&self) -> bool {
        self.inclusive
    }

    /// When the work last ran.
    pub closed spec fn last_run(&self) -> u64 {
        self.last_us
    }

    /// A throttle whose work counts as having run at `start_us`.
    pub fn new(interval_us: u64, inclusive: bool, start_us: u64) -> (t: Throttle)
        ensures
            t.interval() == interval_us,
            t.is_inclusive() == inclusive,
            t.last_run() == start_us,
    {
        Throttle { interval_us, inclusive, last_us: start_us }
    }

    /// Whether the work is due at `now_us`; if so it counts as run now.
    pub fn fire(&mut self, now_us: u64) -> (fired: bool)
        ensures
            fired == due(old(self).interval(), old(self).is_inclusive(), old(self).last_run(), now_us),
            final(self).interval() == old(self).interval(),
            final(self).is_inclusive() == old(self).is_inclusive(),
            final(self).last_run() == (if fired {
                now_us
            } else {
                old(self).last_run()
            }),
    {
        let e = elapsed_us(now_us, self.last_us);
        let fired = if self.inclusive {
            e >= self.interval_us
        } else {
            e > self.interval_us
        };
        if fired {
            self.last_us = now_us;
        }
        fired
    }
}

/// Throttled work never runs twice within one interval: two runs at
/// `first` and then `second` (with the clock not going backwards) are at
/// least `interval` apart.
pub proof fn lemma_throttle_spacing(interval: u64, inclusive: bool, first: u64, second: u64)
    requires
        interval > 0,
        second >= first,
        due(interval, inclusive, first, second),
    ensures
        second - first >= interval,
{
}

/// Watches the gap between consecutive pen reports.
pub struct ActivityMonitor {
    last: Option<(u64, TabletStatus)>,
}

/// Longest tolerated gap, in microseconds, between two active reports.
pub const MAX_ACTIVE_GAP_US: u64 = 25_000;

/// Whether a report is pen activity: anything but disconnected or out of range.
pub open spec fn active(s: TabletStatus) -> bool {
    !(s is Disconnected || s is OutOfRange)
}

/// Whether a report at `now` with `status` follows the previous one after
/// a stall: both are active and more than 25 ms apart.
pub open spec fn stalled(last: Option<(u64, TabletStatus)>, now: u64, status: TabletStatus) -> bool {
    match last {
        Some((t, s)) => active(status) && active(s) && elapsed(now, t) > MAX_ACTIVE_GAP_US,
        None => false,
    }
}

impl ActivityMonitor {
    /// The previous report's time and status, if any.
    pub closed spec fn previous(&self) -> Option<(u64, TabletStatus)> {
        self.last
    }

    /// No report seen yet.
    pub fn new() -> (m: ActivityMonitor)
        ensures
            m.previous() is None,
    {
        ActivityMonitor { last: None }
    }

    /// Records a report and says whether it ended a stall between active reports.
    pub fn record(&mut self, now_us: u64, status: TabletStatus) -> (stall: bool)
        ensures
            stall == stalled(old(self).previous(), now_us, status),
            final(self).previous() == Some((now_us, status)),
    {
        let stall = match self.last {
            Some((t, s)) => is_active_report(status) && is_active_report(s) && elapsed_us(now_us, t)
                > MAX_ACTIVE_GAP_US,
            None => false,
        };
        self.last = Some((now_us, status));
        stall
    }
}

/// Hot-reload of the shared config: checked at most every 50 ms, and
/// reloaded only when the shared version moved since the last reload.
pub struct ConfigReload {
    last_check_us: u64,
    local_version: u32,
}

/// Minimum time, in microseconds, between two config checks.
pub const CONFIG_CHECK_INTERVAL_US: u64 = 50_000;

impl ConfigReload {
    /// Version of the config in use.
    pub closed spec fn version(&self) -> u32 {
        self.local_version
    }

    /// When the shared version was last compared.
    pub closed spec fn last_check(&self) -> u64 {
        self.last_check_us
    }

    /// A tracker using config `version`, last checked at `now_us`.
    pub fn new(version: u32, now_us: u64) -> (c: ConfigReload)
        ensures
            c.version() == version,
            c.last_check() == now_us,
    {
        ConfigReload { last_check_us: now_us, local_version: version }
    }

    /// Whether the config must be reloaded now, given the shared version.
    pub fn poll(&mut self, now_us: u64, shared_version: u32) -> (reload: bool)
        ensures
            ({
                let checked = due(CONFIG_CHECK_INTERVAL_US, true, old(self).last_check(), now_us);
                &&& reload == (checked && shared_version != old(self).version())
                &&& final(self).last_check() == (if checked {
                    now_us
                } else {
                    old(self).last_check()
                })
                &&& final(self).version() == (if reload {
                    shared_version
                } else {
                    old(self).version()
                })
            }),
    {
        if elapsed_us(now_us, self.last_check_us) < CONFIG_CHECK_INTERVAL_US {
            return false;
        }
        self.last_check_us = now_us;
        if shared_version != self.local_version {
            self.local_version = shared_version;
            true
        } else {
            false
        }
    }
}

/// How long stale reports are drained after a device connects, so that the
/// reports queued by its initialisation do not move the cursor.
pub const DRAIN_WINDOW_US: u64 = 100_000;

/// The window during which stale reports are drained after a connect.
pub struct DrainWindow {
    deadline_us: u64,
}

impl DrainWindow {
    /// When draining stops at the latest.
    pub closed spec fn deadline(&self) -> u64 {
        self.deadline_us
    }

    /// Opens the window at `now_us`; it closes `DRAIN_WINDOW_US` later.
    pub fn new(now_us: u64) -> (w: DrainWindow)
        requires
            now_us + DRAIN_WINDOW_US <= u64::MAX,
        ensures
            w.deadline() == now_us + DRAIN_WINDOW_US,
    {
        DrainWindow { deadline_us: now_us + DRAIN_WINDOW_US }
    }

    /// Whether to read another stale report at `now_us`: the window is
    /// still open and neither shutdown nor reload was requested.
    pub fn continues(&self, now_us: u64, stop_requested: bool) -> (b: bool)
        ensures
            b == (now_us < self.deadline() && !stop_requested),
    {
        now_us < self.deadline_us && !stop_requested
    }
}

} // verus!
