//! The monitor's configuration and clock arithmetic on `HHMMSS` times.
use vstd::prelude::*;

verus! {

/// A span of the trading day, both ends included, as `HHMMSS` times.
#[derive(Clone, Copy, Debug)]
pub struct TradeSession {
    pub start: u32,
    pub end: u32,
}

/// What the monitor is told at start-up.
#[derive(Debug)]
pub struct Configuration {
    /// Name of the environment the monitor watches, quoted in every alarm.
    pub _env: String,
    /// Path of the market file whose header carries the market time.
    pub _txt_file: String,
    /// Largest drift, in seconds, between market time and local time.
    pub _txt_interval: i32,
    /// Names of the processes that must be running.
    pub _monitor_processes: Vec<String>,
    /// The spans of the day in which the market trades.
    pub _trade_sessions: Vec<TradeSession>,
}

/// `t` lies in one of `sessions`.
pub open spec fn in_sessions(sessions: Seq<TradeSession>, t: u32) -> bool {
    exists|i: int| 0 <= i < sessions.len() && (#[trigger] sessions[i]).start <= t <= sessions[i].end
}

impl Configuration {
    /// Two configurations that hold the same values.
    pub open spec fn same_as(self, other: Configuration) -> bool {
        &&& self._env@ == other._env@
        &&& self._txt_file@ == other._txt_file@
        &&& self._txt_interval == other._txt_interval
        &&& self._monitor_processes@ == other._monitor_processes@
        &&& self._trade_sessions@ == other._trade_sessions@
    }

    /// A configuration with the given fields.
    pub fn new(
        env: String,
        txt_file: String,
        txt_interval: i32,
        monitor_processes: Vec<String>,
        trade_sessions: Vec<TradeSession>,
    ) -> (r: Configuration)
        ensures
            r._env == env,
            r._txt_file == txt_file,
            r._txt_interval == txt_interval,
            r._monitor_processes == monitor_processes,
            r._trade_sessions == trade_sessions,
    {
        Configuration {
            _env: env,
            _txt_file: txt_file,
            _txt_interval: txt_interval,
            _monitor_processes: monitor_processes,
            _trade_sessions: trade_sessions,
        }
    }

    /// The market trades at the `HHMMSS` time `t`.
    pub fn is_trade_time(&self, t: u32) -> (r: bool)
        ensures
            r == in_sessions(self._trade_sessions@, t),
    {
        let n = self._trade_sessions.len();
        let mut i: usize = 0;
        while i < n
            invariant
                i <= n,
                n == self._trade_sessions@.len(),
                forall|j: int|
                    0 <= j < i ==> !((#[trigger] self._trade_sessions@[j]).start <= t
                        <= self._trade_sessions@[j].end),
            decreases n - i,
        {
            let s = self._trade_sessions[i];
            if s.start <= t && t <= s.end {
                return true;
            }
            i = i + 1;
        }
        false
    }
}

impl Clone for Configuration {
    fn clone(&self) -> (r: Self)
        ensures
            r.same_as(*self),
    {
        let processes = self._monitor_processes.clone();
        let sessions = self._trade_sessions.clone();
        proof {
            assert(processes@ =~= self._monitor_processes@);
            assert(sessions@ =~= self._trade_sessions@);
        }
        Configuration {
            _env: self._env.clone(),
            _txt_file: self._txt_file.clone(),
            _txt_interval: self._txt_interval,
            _monitor_processes: processes,
            _trade_sessions: sessions,
        }
    }
}

/// Seconds since midnight of the `HHMMSS` time `t`.
pub open spec fn seconds_of(t: u32) -> int {
    (t / 10000) * 3600 + ((t / 100) % 100) * 60 + t % 100
}

/// Seconds since midnight of the `HHMMSS` time `t`.
pub fn get_seconds(t: u32) -> (r: i32)
    ensures
        r == seconds_of(t),
        0 <= r <= 1_546_190_099,
{
    let h = t / 10000;
    let m = (t / 100) % 100;
    let s = t % 100;
    assert(h <= 429496);
    (h * 3600 + m * 60 + s) as i32
}

} // verus!
