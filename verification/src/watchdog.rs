//! Idle watchdog: the state kept for a running game and the decisions the
//! monitoring loop takes. The loop itself (clock, process checks, log
//! tailing, termination) runs outside; it hands each observation in.
use vstd::prelude::*;
use crate::text;

verus! {

/// Default idle timeout in seconds.
pub const DEFAULT_IDLE_TIMEOUT_SECS: u64 = 60;

/// Grace period (seconds) between the terminate signal and a forced kill.
pub const GRACE_PERIOD_SECS: u64 = 5;

/// Most characters of the last log line kept for diagnostics.
pub const LAST_LINE_CHARS: usize = 200;

pub const NANOS_PER_SEC: u64 = 1_000_000_000;

/// Lower-case forms of the phases that are legitimately slow but alive.
pub open spec fn reset_patterns() -> Seq<Seq<char>> {
    seq![
        "reloading"@, "loading"@, "building"@, "initializing"@, "generating"@, "preparing"@,
        "scanning"@, "applying"@, "mixing"@, "firing"@, "registering"@, "collecting"@,
        "connecting"@, "authenticating"@, "fetching"@, "downloading"@, "extracting"@,
    ]
}

/// Whether an already-lowercased line names a slow-but-alive phase.
pub open spec fn names_slow_phase(lower: Seq<char>) -> bool {
    exists|i: int| 0 <= i < reset_patterns().len() && text::contains(lower, #[trigger] reset_patterns()[i])
}

/// Status snapshot of a watched instance.
#[derive(Debug, Clone)]
pub struct IdleStatus {
    pub instance: String,
    pub pid: u32,
    /// Seconds since the last log output.
    pub last_output_age_secs: u64,
    /// Configured idle threshold in seconds.
    pub threshold_secs: u64,
    /// Seconds left before the watchdog triggers (0 once triggered).
    pub remaining_secs: u64,
    /// Last log line seen (at most 200 characters).
    pub last_line: String,
    /// Whether the watchdog is still monitoring.
    pub active: bool,
}

/// What the monitoring loop does after one observation.
#[derive(Debug, Clone, Copy, PartialEq, Eq, Structural)]
pub enum WatchAction {
    /// The process is gone: stop watching.
    Stop,
    /// Idle for `idle_secs` (at least the timeout): report and terminate.
    Terminate { idle_secs: u64 },
    /// Keep polling.
    Wait,
}

/// Watchdog state for one game process.
#[derive(Debug, Clone)]
pub struct IdleWatchdog {
    pub pid: u32,
    pub instance_name: String,
    pub timeout_secs: u64,
    /// Time of the last log output, in nanoseconds since the epoch.
    pub last_output_ns: u64,
    pub last_line: String,
    pub active: bool,
    pub log_path: String,
}

/// Whole seconds from `last` to `now` (0 when the clock went backwards).
pub open spec fn idle_secs(now: u64, last: u64) -> u64 {
    if now > last {
        ((now - last) / (NANOS_PER_SEC as int)) as u64
    } else {
        0
    }
}

/// Seconds left at `now` before the threshold is reached (0 once reached).
pub open spec fn remaining_at(now: u64, last: u64, timeout: u64) -> u64 {
    if idle_secs(now, last) >= timeout {
        0
    } else {
        (timeout - idle_secs(now, last)) as u64
    }
}

/// What one observation at `now` leads to: a dead process stops the
/// watchdog, an idle period reaching the threshold terminates the game,
/// anything else waits.
pub open spec fn action_at(now: u64, last: u64, timeout: u64, alive: bool) -> WatchAction {
    if !alive {
        WatchAction::Stop
    } else if idle_secs(now, last) >= timeout {
        WatchAction::Terminate { idle_secs: idle_secs(now, last) }
    } else {
        WatchAction::Wait
    }
}

fn lower_contains(l: &[char], p: &str) -> (r: bool)
    ensures
        r == text::contains(l@, p@),
{
    let pv = text::chars_of(p);
    text::contains_seq(l, pv.as_slice())
}

/// Whether a log line names a slow-but-alive phase (matched on its Unicode
/// lower-case form).
pub fn line_is_idle_reset(line: &str) -> (r: bool)
    ensures
        r == names_slow_phase(text::spec_to_lowercase(line@)),
{
    let lower = text::to_lowercase(line);
    let l = text::chars_of(lower.as_str());
    let l = l.as_slice();
    let pats: [&str; 17] = [
        "reloading", "loading", "building", "initializing", "generating", "preparing", "scanning",
        "applying", "mixing", "firing", "registering", "collecting", "connecting", "authenticating",
        "fetching", "downloading", "extracting",
    ];
    proof {
        assert(pats@.map_values(|s: &str| s@) =~= reset_patterns());
    }
    let mut i: usize = 0;
    while i < 17
        invariant
            i <= 17,
            pats@.map_values(|s: &str| s@) == reset_patterns(),
            l@ == text::spec_to_lowercase(line@),
            forall|k: int| 0 <= k < i ==> !text::contains(l@, #[trigger] reset_patterns()[k]),
        decreases 17 - i,
    {
        assert(reset_patterns()[i as int] == pats@[i as int]@);
        if lower_contains(l, pats[i]) {
            return true;
        }
        i += 1;
    }
    false
}

fn first_chars(s: &str, n: usize) -> (r: String)
    ensures
        r@ == if s@.len() <= n {
            s@
        } else {
            s@.take(n as int)
        },
{
    let v = text::chars_of(s);
    if v.len() <= n {
        text::string_of(v.as_slice())
    } else {
        text::substring(v.as_slice(), 0, n)
    }
}

impl IdleWatchdog {
    /// A watchdog that counts its first idle period from `now_ns`.
    pub fn new(pid: u32, instance_name: String, log_path: String, timeout_secs: u64, now_ns: u64) -> (w: Self)
        ensures
            w.pid == pid,
            w.instance_name@ == instance_name@,
            w.log_path@ == log_path@,
            w.timeout_secs == timeout_secs,
            w.last_output_ns == now_ns,
            w.last_line@ == Seq::<char>::empty(),
            w.active,
    {
        IdleWatchdog {
            pid,
            instance_name,
            timeout_secs,
            last_output_ns: now_ns,
            last_line: String::new(),
            active: true,
            log_path,
        }
    }

    /// Records a log line seen at `now_ns`: any output proves the game is
    /// alive, so the idle timer restarts; the line is kept (first 200
    /// characters) for diagnostics.
    pub fn feed_line(&mut self, line: &str, now_ns: u64)
        ensures
            final(self).last_output_ns == now_ns,
            final(self).last_line@ == if line@.len() <= 200 {
                line@
            } else {
                line@.take(200)
            },
            final(self).pid == old(self).pid,
            final(self).timeout_secs == old(self).timeout_secs,
            final(self).active == old(self).active,
            final(self).instance_name@ == old(self).instance_name@,
            final(self).log_path@ == old(self).log_path@,
    {
        self.last_output_ns = now_ns;
        self.last_line = first_chars(line, LAST_LINE_CHARS);
    }

    /// The status at `now_ns`.
    pub fn status(&self, now_ns: u64) -> (s: IdleStatus)
        ensures
            s.instance@ == self.instance_name@,
            s.pid == self.pid,
            s.last_output_age_secs == idle_secs(now_ns, self.last_output_ns),
            s.threshold_secs == self.timeout_secs,
            s.remaining_secs == remaining_at(now_ns, self.last_output_ns, self.timeout_secs),
            s.last_line@ == self.last_line@,
            s.active == self.active,
    {
        let elapsed = if now_ns > self.last_output_ns {
            (now_ns - self.last_output_ns) / NANOS_PER_SEC
        } else {
            0
        };
        let remaining = if elapsed >= self.timeout_secs {
            0
        } else {
            self.timeout_secs - elapsed
        };
        IdleStatus {
            instance: self.instance_name.clone(),
            pid: self.pid,
            last_output_age_secs: elapsed,
            threshold_secs: self.timeout_secs,
            remaining_secs: remaining,
            last_line: self.last_line.clone(),
            active: self.active,
        }
    }

    /// One step of the monitoring loop at `now_ns`, given whether the game
    /// process is still alive: a dead process stops the watchdog; an idle
    /// period reaching the timeout terminates the game (and the watchdog);
    /// otherwise polling goes on.
    pub fn check(&mut self, now_ns: u64, alive: bool) -> (a: WatchAction)
        ensures
            a == action_at(now_ns, old(self).last_output_ns, old(self).timeout_secs, alive),
            final(self).active == (old(self).active && a == WatchAction::Wait),
            final(self).last_output_ns == old(self).last_output_ns,
            final(self).timeout_secs == old(self).timeout_secs,
            final(self).pid == old(self).pid,
            final(self).last_line@ == old(self).last_line@,
    {
        if !alive {
            self.active = false;
            return WatchAction::Stop;
        }
        let elapsed = if now_ns > self.last_output_ns {
            (now_ns - self.last_output_ns) / NANOS_PER_SEC
        } else {
            0
        };
        if elapsed >= self.timeout_secs {
            self.active = false;
            WatchAction::Terminate { idle_secs: elapsed }
        } else {
            WatchAction::Wait
        }
    }
}

/// Right after a line is fed, the game counts as fresh: no idle time and
/// the whole threshold left.
pub proof fn law_fed_line_resets_idle(now_ns: u64, timeout_secs: u64)
    ensures
        idle_secs(now_ns, now_ns) == 0,
        remaining_at(now_ns, now_ns, timeout_secs) == timeout_secs,
        timeout_secs > 0 ==> action_at(now_ns, now_ns, timeout_secs, true) == WatchAction::Wait,
{
}

/// The status and the monitoring step agree: until the threshold is
/// reached the idle age and the time left add up to it, and a live game is
/// terminated exactly when its status shows no time left.
pub proof fn law_status_agrees_with_check(now_ns: u64, last_ns: u64, timeout_secs: u64)
    ensures
        idle_secs(now_ns, last_ns) < timeout_secs ==> idle_secs(now_ns, last_ns) + remaining_at(
            now_ns,
            last_ns,
            timeout_secs,
        ) == timeout_secs,
        (remaining_at(now_ns, last_ns, timeout_secs) == 0) <==> (action_at(now_ns, last_ns, timeout_secs, true) is Terminate),
        action_at(now_ns, last_ns, timeout_secs, true) is Terminate ==> action_at(now_ns, last_ns, timeout_secs, true)->idle_secs
            >= timeout_secs,
{
}

} // verus!
