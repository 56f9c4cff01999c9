//! The market check: the header of the market file carries the market time;
//! while the market trades, that time must keep up with the local time.
//!
//! The header is read as bytes. Its time field starts at byte 49 and ends
//! before byte 70, for instance `20180124-15:30:05.700`: a date, a dash,
//! then the clock `HH:MM:SS`, a dot and milliseconds.
use vstd::prelude::*;

use vstd::string::StringSliceAdditionalSpecFns;

use crate::alarm::Alarm;
use crate::config::{Configuration, get_seconds, in_sessions, seconds_of};
use crate::text::{ParseIntError, decimal, parse_u32, parse_u32_spec, push_decimal};

verus! {

/// The header of the market file is too short to hold a time.
#[derive(Debug, Clone, Copy, PartialEq, Eq, Structural)]
pub enum HeaderError {
    InvalidData,
}

/// `i` is a place where a string whose UTF-8 bytes are `b` may be cut.
pub open spec fn char_boundary(b: Seq<u8>, i: int) -> bool {
    i == 0 || i == b.len() || (0 < i < b.len() && !(0x80 <= b[i] <= 0xBF))
}

/// The position of the first `c` in `s` at or after `i`; the length of `s`
/// if there is none.
pub open spec fn index_from(s: Seq<u8>, c: u8, i: int) -> int
    decreases s.len() - i,
{
    if i >= s.len() {
        s.len() as int
    } else if s[i] == c {
        i
    } else {
        index_from(s, c, i + 1)
    }
}

/// `index_from` lands between its start and the end of the sequence.
proof fn lemma_index_from_bounds(s: Seq<u8>, c: u8, i: int)
    requires
        0 <= i <= s.len(),
    ensures
        i <= index_from(s, c, i) <= s.len(),
    decreases s.len() - i,
{
    if i < s.len() && s[i] != c {
        lemma_index_from_bounds(s, c, i + 1);
    }
}

/// The header is long enough to hold the time field.
pub open spec fn has_time_field(b: Seq<u8>) -> bool {
    b.len() > 80
}

/// The time field of the header.
pub open spec fn time_field(b: Seq<u8>) -> Seq<u8> {
    b.subrange(49, 70)
}

/// The clock of the time field: what follows the date and the dash, up to
/// the first dot.
pub open spec fn clock_text(b: Seq<u8>) -> Seq<u8> {
    let t = time_field(b).subrange(9, 21);
    t.take(index_from(t, 46, 0))
}

/// The three parts of `c` between colons, when `c` holds exactly two.
pub open spec fn clock_fields(c: Seq<u8>) -> Option<(Seq<u8>, Seq<u8>, Seq<u8>)> {
    let i1 = index_from(c, 58, 0);
    let i2 = index_from(c, 58, i1 + 1);
    if i1 < c.len() && i2 < c.len() && index_from(c, 58, i2 + 1) == c.len() {
        Some((c.subrange(0, i1), c.subrange(i1 + 1, i2), c.subrange(i2 + 1, c.len() as int)))
    } else {
        None
    }
}

/// The `HHMMSS` time read from the hours, minutes and seconds fields; the
/// first field that fails to read gives the error.
pub open spec fn time_of(h: Seq<u8>, m: Seq<u8>, s: Seq<u8>) -> Result<u32, ParseIntError> {
    match parse_u32_spec(h) {
        Err(e) => Err(e),
        Ok(hv) => match parse_u32_spec(m) {
            Err(e) => Err(e),
            Ok(mv) => match parse_u32_spec(s) {
                Err(e) => Err(e),
                Ok(sv) => Ok((hv * 10000 + mv * 100 + sv) as u32),
            },
        },
    }
}

/// When all three fields read, `HHMMSS` fits in a `u32`.
pub open spec fn fields_fit(h: Seq<u8>, m: Seq<u8>, s: Seq<u8>) -> bool {
    match (parse_u32_spec(h), parse_u32_spec(m), parse_u32_spec(s)) {
        (Ok(hv), Ok(mv), Ok(sv)) => hv * 10000 + mv * 100 + sv <= u32::MAX,
        _ => true,
    }
}

/// The market time the header carries: `None` when its clock does not
/// have three parts, else the time read from them.
pub open spec fn market_time(b: Seq<u8>) -> Option<Result<u32, ParseIntError>> {
    match clock_fields(clock_text(b)) {
        Some((h, m, s)) => Some(time_of(h, m, s)),
        None => None,
    }
}

/// `a` is the alarm that reports the market stopped at `t`, in `env`.
pub open spec fn is_market_report(a: Alarm, env: Seq<char>, t: u32) -> bool {
    &&& a._id == 2000
    &&& a._source@ == "HQ MONITOR"@
    &&& a._target@ == "SH_TXT_FILE"@
    &&& a._description@ == "Shanghai stopped: market_time: "@ + decimal(t as nat) + ", "@
    &&& a._time@ == Seq::<char>::empty()
    &&& a._env@ == env
}

pub open spec fn i32_fits(x: int) -> bool {
    i32::MIN <= x <= i32::MAX
}

/// The state of the market check, with the configuration it runs under.
pub struct BizContext {
    /// The market time seen last while the market traded (`HHMMSS`).
    pub _txt_time: u32,
    /// Local time minus market time, in seconds, once measured; 0 before.
    pub _txt_adjust: i32,
    pub _dbf_time: u32,
    pub _dbf_adjust: i32,
    pub _config: Configuration,
}

impl BizContext {
    /// The market trades at `t`.
    pub open spec fn trading(self, t: u32) -> bool {
        in_sessions(self._config._trade_sessions@, t)
    }

    /// The adjustment in force once the market time `time` is seen at the
    /// local time `now`: it is measured the first time two market times
    /// 1 to 10 seconds apart are seen in a row, and kept from then on.
    pub open spec fn adjust_for(self, time: u32, now: u32) -> int {
        let s_last = seconds_of(self._txt_time);
        let diff = seconds_of(time) - s_last;
        if self._txt_adjust == 0 && s_last != 0 && 1 <= diff <= 10 {
            seconds_of(now) - seconds_of(time)
        } else {
            self._txt_adjust as int
        }
    }

    /// An alarm is due: both times fall in trading hours and the adjusted
    /// market time is off the local time by the interval or more.
    pub open spec fn alarm_due(self, time: u32, now: u32) -> bool {
        let x = seconds_of(time) + self.adjust_for(time, now);
        &&& self.trading(time)
        &&& self.trading(now)
        &&& (seconds_of(now) - x >= self._config._txt_interval || x - seconds_of(now)
            >= self._config._txt_interval)
    }

    /// The state after the market time `time` is checked at `now`.
    pub open spec fn checked(self, time: u32, now: u32) -> BizContext {
        if self.trading(time) {
            BizContext {
                _txt_time: time,
                _txt_adjust: self.adjust_for(time, now) as i32,
                _dbf_time: self._dbf_time,
                _dbf_adjust: self._dbf_adjust,
                _config: self._config,
            }
        } else {
            self
        }
    }

    /// The check of `time` at `now` stays within `i32` arithmetic.
    pub open spec fn time_fits(self, time: u32, now: u32) -> bool {
        self.trading(time) && self.trading(now) ==> {
            let x = seconds_of(time) + self.adjust_for(time, now);
            &&& i32_fits(x)
            &&& i32_fits(seconds_of(now) - x)
            &&& (seconds_of(now) - x < self._config._txt_interval ==> i32_fits(
                x - seconds_of(now),
            ))
        }
    }

    /// Checking the header `b` at `now` cuts every string on a character
    /// boundary, finds a clock of at least eight bytes, and stays within
    /// the integer types.
    pub open spec fn txt_safe(self, b: Seq<u8>, now: u32) -> bool {
        has_time_field(b) ==> {
            &&& char_boundary(b, 49)
            &&& char_boundary(b, 70)
            &&& char_boundary(time_field(b), 9)
            &&& clock_text(b).len() >= 8
            &&& char_boundary(clock_text(b), 8)
            &&& match clock_fields(clock_text(b)) {
                Some((h, m, s)) => {
                    &&& fields_fit(h, m, s)
                    &&& (time_of(h, m, s) matches Ok(t) ==> self.time_fits(t, now))
                },
                None => true,
            }
        }
    }

    /// The state and alarm after the header `b` is checked at `now`.
    pub open spec fn txt_checked(self, b: Seq<u8>, now: u32) -> BizContext {
        match market_time(b) {
            Some(Ok(t)) => self.checked(t, now),
            _ => self,
        }
    }

    /// The market time of the header `b` is due an alarm at `now`.
    pub open spec fn txt_alarm_due(self, b: Seq<u8>, now: u32) -> bool {
        match market_time(b) {
            Some(Ok(t)) => self.alarm_due(t, now),
            _ => false,
        }
    }

    pub fn new(config: Configuration) -> (r: BizContext)
        ensures
            r._txt_time == 0,
            r._txt_adjust == 0,
            r._dbf_time == 0,
            r._dbf_adjust == 0,
            r._config == config,
    {
        BizContext {
            _dbf_time: 0u32,
            _txt_time: 0u32,
            _config: config,
            _txt_adjust: 0i32,
            _dbf_adjust: 0i32,
        }
    }

    /// The `HHMMSS` time read from the hours, minutes and seconds fields.
    pub fn parse_time(&self, ts: &Vec<&[u8]>) -> (r: Result<u32, ParseIntError>)
        requires
            ts.len() >= 3,
            fields_fit(ts@[0]@, ts@[1]@, ts@[2]@),
        ensures
            r == time_of(ts@[0]@, ts@[1]@, ts@[2]@),
    {
        let h = match parse_u32(ts[0]) {
            Ok(v) => v,
            Err(e) => return Err(e),
        };
        let m = match parse_u32(ts[1]) {
            Ok(v) => v,
            Err(e) => return Err(e),
        };
        let s = match parse_u32(ts[2]) {
            Ok(v) => v,
            Err(e) => return Err(e),
        };
        Ok(h * 10000 + m * 100 + s)
    }

    /// The alarm that reports the market stopped at `t`.
    pub fn report_alarm(&self, t: u32) -> (r: Alarm)
        ensures
            is_market_report(r, self._config._env@, t),
    {
        let mut s = String::new();
        s.append("Shanghai stopped: market_time: ");
        push_decimal(&mut s, t);
        s.append(", ");
        assert(s@ =~= "Shanghai stopped: market_time: "@ + decimal(t as nat) + ", "@);
        Alarm {
            _id: 2000,
            _source: String::from_str("HQ MONITOR"),
            _target: String::from_str("SH_TXT_FILE"),
            _description: s,
            _time: String::new(),
            _env: self._config._env.clone(),
        }
    }

    /// Checks the market time `time` at the local time `now`, both
    /// `HHMMSS`. Hands back the alarm to report, if one is due.
    pub fn check_time(&mut self, time: u32, now: u32) -> (r: Option<Alarm>)
        requires
            old(self).time_fits(time, now),
        ensures
            *final(self) == old(self).checked(time, now),
            r is Some <==> old(self).alarm_due(time, now),
            r matches Some(a) ==> is_market_report(a, old(self)._config._env@, time),
    {
        let s_now = get_seconds(now);
        let s_market = get_seconds(time);
        let s_last = get_seconds(self._txt_time);
        if self._config.is_trade_time(time) {
            if self._txt_adjust == 0 {
                let diff = s_market - s_last;
                if s_last != 0 && diff <= 10 && diff >= 1 {
                    self._txt_adjust = s_now - s_market;
                }
            }
            let mut alarm: Option<Alarm> = None;
            if self._config.is_trade_time(now) {
                if s_now - (s_market + self._txt_adjust) >= self._config._txt_interval {
                    alarm = Some(self.report_alarm(time));
                } else if (s_market + self._txt_adjust) - s_now >= self._config._txt_interval {
                    alarm = Some(self.report_alarm(time));
                }
            }
            self._txt_time = time;
            return alarm;
        }
        None
    }
    /// Tells whether the check of `time` at `now` stays within `i32`
    /// arithmetic.
    pub fn time_check_fits(&self, time: u32, now: u32) -> (r: bool)
        ensures
            r == self.time_fits(time, now),
    {
        if !(self._config.is_trade_time(time) && self._config.is_trade_time(now)) {
            return true;
        }
        let s_now = get_seconds(now) as i64;
        let s_market = get_seconds(time) as i64;
        let s_last = get_seconds(self._txt_time) as i64;
        let diff = s_market - s_last;
        let adjust: i64 = if self._txt_adjust == 0 && s_last != 0 && 1 <= diff && diff <= 10 {
            s_now - s_market
        } else {
            self._txt_adjust as i64
        };
        let x = s_market + adjust;
        let low = i32::MIN as i64;
        let high = i32::MAX as i64;
        if x < low || x > high {
            return false;
        }
        let ahead = s_now - x;
        if ahead < low || ahead > high {
            return false;
        }
        if ahead < self._config._txt_interval as i64 {
            let behind = x - s_now;
            if behind < low || behind > high {
                return false;
            }
        }
        true
    }

    /// Tells whether checking the header `line` at `now` is safe: see
    /// `txt_safe`.
    pub fn check_txt_is_safe(&self, line: &str, now: u32) -> (r: bool)
        ensures
            r == self.txt_safe(line.spec_bytes(), now),
    {
        let b = line.as_bytes();
        if b.len() <= 80 {
            return true;
        }
        if !byte_boundary(b, 49) || !byte_boundary(b, 70) {
            return false;
        }
        let t = &b[49..70];
        if !byte_boundary(t, 9) {
            return false;
        }
        let t_str = &t[9..21];
        let k = find_byte(t_str, 46, 0);
        proof {
            lemma_index_from_bounds(t_str@, 46, 0);
        }
        let clock = &t_str[0..k];
        assert(clock@ =~= clock_text(b@));
        if k < 8 || !byte_boundary(clock, 8) {
            return false;
        }
        match split_clock(clock) {
            None => true,
            Some((h, m, s)) => {
                match (parse_u32(h), parse_u32(m), parse_u32(s)) {
                    (Ok(hv), Ok(mv), Ok(sv)) => {
                        let total = (hv as u64) * 10000 + (mv as u64) * 100 + (sv as u64);
                        if total > u32::MAX as u64 {
                            return false;
                        }
                        let time = (total as u32);
                        self.time_check_fits(time, now)
                    },
                    _ => true,
                }
            },
        }
    }

    /// Checks the header `line` of the market file at the local time `now`
    /// (`HHMMSS`). A header too short to hold a time is refused; a time that
    /// cannot be read is passed over. Hands back the alarm to report, if one
    /// is due.
    pub fn check_txt(&mut self, line: &str, now: u32) -> (r: Result<Option<Alarm>, HeaderError>)
        requires
            old(self).txt_safe(line.spec_bytes(), now),
        ensures
            !has_time_field(line.spec_bytes()) ==> r == Err::<Option<Alarm>, HeaderError>(
                HeaderError::InvalidData,
            ) && *final(self) == *old(self),
            has_time_field(line.spec_bytes()) ==> {
                &&& r is Ok
                &&& *final(self) == old(self).txt_checked(line.spec_bytes(), now)
                &&& (r matches Ok(Some(_))) == old(self).txt_alarm_due(line.spec_bytes(), now)
                &&& r matches Ok(Some(a)) ==> market_time(line.spec_bytes()) matches Some(Ok(t))
                    && is_market_report(a, old(self)._config._env@, t)
            },
    {
        let t = match process_header(line) {
            Ok(t) => t,
            Err(e) => return Err(e),
        };
        let ghost b = line.spec_bytes();
        if t.len() >= 17 {
            let t_str = &t[9..21];
            let k = find_byte(t_str, 46, 0);
            proof {
                lemma_index_from_bounds(t_str@, 46, 0);
            }
            let clock = &t_str[0..k];
            assert(clock@ =~= clock_text(b));
            match split_clock(clock) {
                None => {},
                Some((h, m, s)) => {
                    let ts = vec![h, m, s];
                    match self.parse_time(&ts) {
                        Ok(time) => {
                            return Ok(self.check_time(time, now));
                        },
                        Err(_) => {},
                    }
                },
            }
        }
        Ok(None)
    }

    /// Checks the header of the configured market file (`_txt_file`), as
    /// read by the caller, at the local time `now`: see `check_txt`.
    pub fn check_sh_market(&mut self, header: &str, now: u32) -> (r: Result<
        Option<Alarm>,
        HeaderError,
    >)
        requires
            old(self).txt_safe(header.spec_bytes(), now),
        ensures
            !has_time_field(header.spec_bytes()) ==> r == Err::<Option<Alarm>, HeaderError>(
                HeaderError::InvalidData,
            ) && *final(self) == *old(self),
            has_time_field(header.spec_bytes()) ==> {
                &&& r is Ok
                &&& *final(self) == old(self).txt_checked(header.spec_bytes(), now)
                &&& (r matches Ok(Some(_))) == old(self).txt_alarm_due(header.spec_bytes(), now)
                &&& r matches Ok(Some(a)) ==> market_time(header.spec_bytes()) matches Some(Ok(t))
                    && is_market_report(a, old(self)._config._env@, t)
            },
    {
        self.check_txt(header, now)
    }

    /// The check of the DBF market file, which passes whatever the file.
    pub fn check_dbf(file: &str) -> (r: Result<(), HeaderError>)
        ensures
            r is Ok,
    {
        Ok(())
    }
}

/// `i` is a place where the string whose UTF-8 bytes are `b` may be cut.
fn byte_boundary(b: &[u8], i: usize) -> (r: bool)
    ensures
        r == char_boundary(b@, i as int),
{
    if i == 0 || i == b.len() {
        true
    } else if i > b.len() {
        false
    } else {
        let x = b[i];
        !(0x80 <= x && x <= 0xBF)
    }
}

/// The time field of the header `line` of the market file; a header too
/// short to hold one is refused.
pub fn process_header(line: &str) -> (r: Result<&[u8], HeaderError>)
    requires
        has_time_field(line.spec_bytes()) ==> char_boundary(line.spec_bytes(), 49)
            && char_boundary(line.spec_bytes(), 70),
    ensures
        match r {
            Ok(t) => has_time_field(line.spec_bytes()) && t@ == time_field(line.spec_bytes()),
            Err(e) => !has_time_field(line.spec_bytes()) && e == HeaderError::InvalidData,
        },
{
    let b = line.as_bytes();
    if b.len() > 80 {
        Ok(&b[49..70])
    } else {
        Err(HeaderError::InvalidData)
    }
}

/// The position of the first `c` in `s` at or after `from`.
fn find_byte(s: &[u8], c: u8, from: usize) -> (r: usize)
    requires
        from <= s@.len(),
    ensures
        r == index_from(s@, c, from as int),
{
    let n = s.len();
    let mut i = from;
    while i < n
        invariant
            from <= i <= n,
            n == s@.len(),
            index_from(s@, c, i as int) == index_from(s@, c, from as int),
        decreases n - i,
    {
        if s[i] == c {
            return i;
        }
        i = i + 1;
    }
    i
}

/// The parts of `c` between colons, when it holds exactly two.
fn split_clock(c: &[u8]) -> (r: Option<(&[u8], &[u8], &[u8])>)
    ensures
        match clock_fields(c@) {
            Some((h, m, s)) => r matches Some((rh, rm, rs)) && rh@ == h && rm@ == m && rs@ == s,
            None => r is None,
        },
{
    let n = c.len();
    let i1 = find_byte(c, 58, 0);
    if i1 >= n {
        return None;
    }
    let i2 = find_byte(c, 58, i1 + 1);
    proof {
        lemma_index_from_bounds(c@, 58, i1 + 1);
    }
    if i2 >= n {
        return None;
    }
    let i3 = find_byte(c, 58, i2 + 1);
    if i3 != n {
        return None;
    }
    Some((&c[0..i1], &c[i1 + 1..i2], &c[i2 + 1..n]))
}

/// In trading hours an alarm is due exactly when the adjusted market time
/// and the local time are the configured interval or more apart, either
/// way; outside trading hours none is.
pub proof fn law_alarm_threshold(ctx: BizContext, time: u32, now: u32)
    ensures
        ({
            let drift = seconds_of(now) - (seconds_of(time) + ctx.adjust_for(time, now));
            ctx.trading(time) && ctx.trading(now) ==> (ctx.alarm_due(time, now) <==> (drift
                >= ctx._config._txt_interval || -drift >= ctx._config._txt_interval))
        }),
        !(ctx.trading(time) && ctx.trading(now)) ==> !ctx.alarm_due(time, now),
{
}

/// Checking a header whose clock reads as the market time `t` is checking
/// `t`: same new state, same alarm. A header without a readable time
/// changes nothing and raises nothing.
pub proof fn law_header_checks_its_time(ctx: BizContext, b: Seq<u8>, now: u32)
    ensures
        market_time(b) matches Some(Ok(t)) ==> ctx.txt_checked(b, now) == ctx.checked(t, now)
            && ctx.txt_alarm_due(b, now) == ctx.alarm_due(t, now),
        !(market_time(b) matches Some(Ok(_))) ==> ctx.txt_checked(b, now) == ctx
            && !ctx.txt_alarm_due(b, now),
{
}

/// A stalled market is reported: when the header still shows the market
/// time seen last, both times are in trading hours, and local time has run
/// ahead of the adjusted market time by the interval or more, an alarm is
/// due, and the market time stays the last one seen.
pub proof fn law_stalled_market_raises(ctx: BizContext, b: Seq<u8>, now: u32, t: u32)
    requires
        market_time(b) == Some(Ok::<u32, ParseIntError>(t)),
        t == ctx._txt_time,
        ctx.trading(t),
        ctx.trading(now),
        seconds_of(now) - (seconds_of(t) + ctx._txt_adjust) >= ctx._config._txt_interval,
    ensures
        ctx.txt_alarm_due(b, now),
        ctx.txt_checked(b, now)._txt_time == t,
        ctx.txt_checked(b, now)._txt_adjust == ctx._txt_adjust,
{
}

/// Once measured, the adjustment between market time and local time is
/// never measured again.
pub proof fn law_adjust_kept_once_measured(ctx: BizContext, time: u32, now: u32)
    requires
        ctx._txt_adjust != 0,
    ensures
        ctx.checked(time, now)._txt_adjust == ctx._txt_adjust,
{
}

/// A market time outside trading hours changes nothing and raises nothing.
pub proof fn law_off_hours_check_is_inert(ctx: BizContext, time: u32, now: u32)
    requires
        !ctx.trading(time),
    ensures
        ctx.checked(time, now) == ctx,
        !ctx.alarm_due(time, now),
{
}

/// A market time inside trading hours becomes the last market time seen.
pub proof fn law_trading_time_is_remembered(ctx: BizContext, time: u32, now: u32)
    requires
        ctx.trading(time),
    ensures
        ctx.checked(time, now)._txt_time == time,
        ctx.checked(time, now)._config == ctx._config,
{
}

/// A report of a stopped market is raised exactly when no such report is
/// active: while one is active, further reports change nothing.
pub proof fn law_market_report_raised_once(active: Seq<Alarm>, a: Alarm, env: Seq<char>, t: u32)
    requires
        is_market_report(a, env, t),
    ensures
        crate::alarm::raised(active, a) == !crate::alarm::has_key(active, 2000, "SH_TXT_FILE"@),
{
}

} // verus!
