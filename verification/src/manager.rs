//! The alarm manager: the active alarms, and a log of lines kept per date.
use vstd::prelude::*;
use std::collections::HashMap;
use vstd::std_specs::iter::IteratorSpec;

use crate::alarm::{
    Alarm,
    Alarms,
    active_ok,
    has_key,
    raised,
    with_alarm,
    without_key,
    law_raise_keeps_invariant,
    law_disable_keeps_invariant,
    law_disable_undoes_raise,
};
use crate::config::Configuration;
use crate::text::{debug_quoted, debug_text, decimal, push_decimal};

verus! {

broadcast use vstd::std_specs::hash::group_hash_axioms;

/// The log line written when the alarm with key (`id`, `target`) is
/// disabled, with `quoted_now` standing for the time of day.
pub open spec fn disabled_text(quoted_now: Seq<char>, id: u32, target: Seq<char>) -> Seq<char> {
    "["@ + quoted_now + "]: alarm disabled!, ID: "@ + decimal(id as nat) + ", TARGET: "@ + target
}

/// The log line written when the alarm with key (`id`, `target`) is
/// disabled, with `quoted_now` standing for the time of day.
pub fn disabled_line(quoted_now: &str, id: u32, target: &String) -> (r: String)
    ensures
        r@ == disabled_text(quoted_now@, id, target@),
{
    let mut s = String::new();
    s.append("[");
    s.append(quoted_now);
    s.append("]: alarm disabled!, ID: ");
    push_decimal(&mut s, id);
    s.append(", TARGET: ");
    s.append(target.as_str());
    assert(s@ =~= disabled_text(quoted_now@, id, target@));
    s
}

/// What an alarm manager holds.
pub struct ManagerView {
    /// The log lines of each date, oldest first.
    pub logs: Map<u32, Seq<Seq<char>>>,
    /// The date the manager last logged under.
    pub today: u32,
    /// The active alarms, oldest first.
    pub active: Seq<Alarm>,
    /// The configuration of the manager.
    pub config: Option<Configuration>,
    /// The configuration the active alarms were given.
    pub alarm_config: Option<Configuration>,
}

impl ManagerView {
    /// The active alarms are well formed, and each date in the log has a line.
    pub open spec fn inv(self) -> bool {
        &&& active_ok(self.active)
        &&& forall|d: u32| #[trigger] self.logs.contains_key(d) ==> self.logs[d].len() > 0
    }

    /// The lines logged under `date`, none if the date is unknown.
    pub open spec fn logs_on(self, date: u32) -> Seq<Seq<char>> {
        if self.logs.contains_key(date) {
            self.logs[date]
        } else {
            Seq::empty()
        }
    }

    /// The manager after `line` is logged under `date`.
    pub open spec fn with_log(self, date: u32, line: Seq<char>) -> ManagerView {
        ManagerView {
            logs: self.logs.insert(date, self.logs_on(date).push(line)),
            today: date,
            active: self.active,
            config: self.config,
            alarm_config: self.alarm_config,
        }
    }

    /// The manager with `active` as its active alarms.
    pub open spec fn with_active(self, active: Seq<Alarm>) -> ManagerView {
        ManagerView {
            logs: self.logs,
            today: self.today,
            active: active,
            config: self.config,
            alarm_config: self.alarm_config,
        }
    }

    /// The manager after `a` is raised on `date`: when it becomes active,
    /// its text is logged under `date`.
    pub open spec fn raise(self, a: Alarm, date: u32) -> ManagerView {
        if raised(self.active, a) {
            self.with_active(with_alarm(self.active, a)).with_log(date, a.text())
        } else {
            self
        }
    }

    /// The manager after the alarm with key (`id`, `target`) is disabled on
    /// `date` at the time of day `now`: when one was active, a line saying
    /// so is logged under `date`.
    pub open spec fn disable(
        self,
        id: u32,
        target: Seq<char>,
        date: u32,
        now: Seq<char>,
    ) -> ManagerView {
        if has_key(self.active, id, target) {
            self.with_active(without_key(self.active, id, target)).with_log(
                date,
                disabled_text(debug_quoted(now), id, target),
            )
        } else {
            self
        }
    }
}

/// Logging keeps the manager well formed.
pub proof fn law_log_keeps_invariant(m: ManagerView, date: u32, line: Seq<char>)
    requires
        m.inv(),
    ensures
        m.with_log(date, line).inv(),
{
}

/// Raising and disabling alarms keep the manager well formed.
pub proof fn law_alarms_keep_invariant(
    m: ManagerView,
    a: Alarm,
    id: u32,
    target: Seq<char>,
    date: u32,
    now: Seq<char>,
)
    requires
        m.inv(),
    ensures
        m.raise(a, date).inv(),
        m.disable(id, target, date, now).inv(),
{
    law_raise_keeps_invariant(m.active, a);
    law_disable_keeps_invariant(m.active, id, target);
}

/// A line logged under a date is read back last among that date's lines;
/// the lines of other dates stay as they were, and the date becomes today.
pub proof fn law_log_read_back(m: ManagerView, date: u32, line: Seq<char>, other: u32)
    requires
        other != date,
    ensures
        m.with_log(date, line).logs_on(date) == m.logs_on(date).push(line),
        m.with_log(date, line).logs_on(other) == m.logs_on(other),
        m.with_log(date, line).logs.dom() == m.logs.dom().insert(date),
        m.with_log(date, line).today == date,
{
    assert(m.with_log(date, line).logs.dom() =~= m.logs.dom().insert(date));
}

/// An alarm that becomes active has its text logged under the date it was
/// raised on; one that does not leaves the manager as it was.
pub proof fn law_raise_logs_its_text(m: ManagerView, a: Alarm, date: u32)
    ensures
        raised(m.active, a) ==> m.raise(a, date).logs_on(date) == m.logs_on(date).push(a.text()),
        raised(m.active, a) ==> m.raise(a, date).active == m.active.push(a),
        raised(m.active, a) ==> m.raise(a, date).today == date,
        !raised(m.active, a) ==> m.raise(a, date) == m,
{
}

/// Disabling an alarm that was just raised gives back the active alarms
/// as they were before it was raised.
pub proof fn law_disable_undoes_raise_in_manager(
    m: ManagerView,
    a: Alarm,
    date: u32,
    later: u32,
    now: Seq<char>,
)
    requires
        m.inv(),
        raised(m.active, a),
    ensures
        m.raise(a, date).disable(a._id, a._target@, later, now).active == m.active,
{
    law_disable_undoes_raise(m.active, a);
    crate::alarm::law_raised_alarm_is_active(m.active, a);
}

/// Disabling an active alarm on `date` logs its line under `date`, after
/// the lines already there, and makes `date` today; the lines of every
/// other date stay as they were. Disabling a key that is not active changes
/// nothing.
pub proof fn law_disable_logs_under_its_date(
    m: ManagerView,
    id: u32,
    target: Seq<char>,
    date: u32,
    now: Seq<char>,
    other: u32,
)
    requires
        other != date,
    ensures
        has_key(m.active, id, target) ==> {
            let after = m.disable(id, target, date, now);
            &&& after.logs_on(date) == m.logs_on(date).push(
                "["@ + debug_quoted(now) + "]: alarm disabled!, ID: "@ + decimal(id as nat)
                    + ", TARGET: "@ + target,
            )
            &&& after.logs_on(other) == m.logs_on(other)
            &&& after.today == date
            &&& after.active == without_key(m.active, id, target)
        },
        !has_key(m.active, id, target) ==> m.disable(id, target, date, now) == m,
{
}

/// Active alarms, and a log of lines per date (`YYYYMMDD`).
pub struct AlarmManager {
    _alarms: HashMap<u32, Vec<String>>,
    _current_date: u32,
    _active_alarms: Alarms,
    _config: Option<Configuration>,
}

/// The text of each line of `v`.
pub open spec fn texts(v: Seq<String>) -> Seq<Seq<char>> {
    v.map_values(|s: String| s@)
}

impl View for AlarmManager {
    type V = ManagerView;

    closed spec fn view(&self) -> ManagerView {
        ManagerView {
            logs: Map::new(
                |d: u32| self._alarms@.contains_key(d),
                |d: u32| texts(self._alarms@[d]@),
            ),
            today: self._current_date,
            active: self._active_alarms@,
            config: self._config,
            alarm_config: self._active_alarms.config(),
        }
    }
}

impl AlarmManager {
    /// Each date in the log has a line.
    #[verifier::type_invariant]
    spec fn well_formed(self) -> bool {
        forall|d: u32| #[trigger] self._alarms@.contains_key(d) ==> self._alarms@[d]@.len() > 0
    }

    /// A manager with no log, no active alarm, no configuration, and day 0.
    pub fn new() -> (r: AlarmManager)
        ensures
            r@.logs == Map::<u32, Seq<Seq<char>>>::empty(),
            r@.today == 0,
            r@.active == Seq::<Alarm>::empty(),
            r@.config is None,
            r@.alarm_config is None,
            r@.inv(),
    {
        let alarms = HashMap::new();
        let r = AlarmManager {
            _alarms: alarms,
            _current_date: 0,
            _active_alarms: Alarms::new(),
            _config: None,
        };
        assert(r@.logs =~= Map::<u32, Seq<Seq<char>>>::empty());
        r
    }

    /// Gives the manager, and its active alarms, the configuration `config`.
    pub fn set_config(&mut self, config: Configuration)
        ensures
            final(self)@.config == Some(config),
            final(self)@.alarm_config matches Some(c) && c.same_as(config),
            final(self)@.logs == old(self)@.logs,
            final(self)@.today == old(self)@.today,
            final(self)@.active == old(self)@.active,
            final(self)@.inv(),
    {
        proof {
            use_type_invariant(&*self);
            use_type_invariant(&self._active_alarms);
        }
        let mut active = Alarms::new();
        std::mem::swap(&mut active, &mut self._active_alarms);
        active.set_config(config.clone());
        self._active_alarms = active;
        self._config = Some(config);
    }

    /// The configuration of the manager.
    pub fn get_config(&self) -> (r: &Option<Configuration>)
        ensures
            *r == self@.config,
    {
        &self._config
    }

    pub fn get_today(&self) -> (r: u32)
        ensures
            r == self@.today,
    {
        self._current_date
    }

    pub fn set_today(&mut self, t: u32)
        ensures
            final(self)@ == (ManagerView { today: t, ..old(self)@ }),
            final(self)@.inv(),
    {
        proof {
            use_type_invariant(&*self);
            use_type_invariant(&self._active_alarms);
        }
        self._current_date = t;
    }

    /// The active alarms, oldest first.
    pub fn active_alarms(&self) -> (r: &Vec<Alarm>)
        ensures
            r@ == self@.active,
    {
        self._active_alarms.alarms()
    }

    /// Deactivates every alarm.
    pub fn clear_active_alarms(&mut self)
        ensures
            final(self)@ == old(self)@.with_active(Seq::empty()),
            final(self)@.inv(),
    {
        proof {
            use_type_invariant(&*self);
            use_type_invariant(&self._active_alarms);
        }
        let mut active = Alarms::new();
        std::mem::swap(&mut active, &mut self._active_alarms);
        active.clear();
        self._active_alarms = active;
        assert(self@.logs =~= old(self)@.logs);
    }

    /// Logs `log` under `date`, which becomes today.
    pub fn add_log(&mut self, date: u32, log: String) -> (r: bool)
        ensures
            r,
            final(self)@ == old(self)@.with_log(date, log@),
            final(self)@.inv(),
    {
        proof {
            use_type_invariant(&*self);
            use_type_invariant(&self._active_alarms);
        }
        let ghost line = log@;
        let today = self.get_today();
        if today != date {
            self._current_date = date;
        }
        let ghost old_map = self._alarms@;
        let mut logs: HashMap<u32, Vec<String>> = HashMap::new();
        std::mem::swap(&mut logs, &mut self._alarms);
        let mut v = match logs.remove(&date) {
            Some(v) => v,
            None => Vec::new(),
        };
        let ghost before = v@;
        assert(old_map.contains_key(date) ==> before == old_map[date]@);
        assert(!old_map.contains_key(date) ==> before == Seq::<String>::empty());
        v.push(log);
        assert(texts(v@) =~= texts(before).push(line));
        let ghost vnew = v;
        logs.insert(date, v);
        self._alarms = logs;
        proof {
            let target = old(self)@.with_log(date, line).logs;
            assert(self._alarms@ == old_map.remove(date).insert(date, vnew));
            assert forall|d: u32| #[trigger] self@.logs.contains_key(d) == target.contains_key(d) by {}
            assert forall|d: u32| #[trigger] self@.logs.contains_key(d) implies self@.logs[d]
                == target[d] by {
                if d != date {
                    assert(self._alarms@[d] == old_map[d]);
                }
            }
            assert(self@.logs =~= target);
        }
        true
    }

    /// Raises `alarm` on `date`. When it becomes active, its text is logged
    /// under `date` and handed back, to be sent out.
    pub fn active_alarm(&mut self, alarm: Alarm, date: u32) -> (r: Option<String>)
        ensures
            final(self)@ == old(self)@.raise(alarm, date),
            final(self)@.inv(),
            match r {
                Some(s) => raised(old(self)@.active, alarm) && s@ == alarm.text(),
                None => !raised(old(self)@.active, alarm),
            },
    {
        proof {
            use_type_invariant(&*self);
            use_type_invariant(&self._active_alarms);
        }
        let ghost a = alarm;
        let mut active = Alarms::new();
        std::mem::swap(&mut active, &mut self._active_alarms);
        let r = active.active_alarm(alarm);
        self._active_alarms = active;
        match r {
            Some(line) => {
                let logged = line.clone();
                assert(self@ == old(self)@.with_active(with_alarm(old(self)@.active, a)));
                self.add_log(date, logged);
                Some(line)
            },
            None => {
                assert(self@.logs =~= old(self)@.logs);
                None
            },
        }
    }

    /// Disables the alarm with key (`no`, `target`) on `date`; `now` is the
    /// time of day. When one was active, a line saying so is logged under
    /// `date`. Tells whether one was active.
    pub fn disable_alarm(&mut self, no: u32, target: &String, date: u32, now: &str) -> (r: bool)
        ensures
            final(self)@ == old(self)@.disable(no, target@, date, now@),
            final(self)@.inv(),
            r == has_key(old(self)@.active, no, target@),
    {
        proof {
            use_type_invariant(&*self);
            use_type_invariant(&self._active_alarms);
        }
        let mut active = Alarms::new();
        std::mem::swap(&mut active, &mut self._active_alarms);
        let found = active.disable_alarm(no, target);
        self._active_alarms = active;
        if found {
            assert(self@ == old(self)@.with_active(without_key(old(self)@.active, no, target@)));
            let quoted = debug_text(now);
            let line = disabled_line(quoted.as_str(), no, target);
            self.add_log(date, line);
        } else {
            assert(self@.logs =~= old(self)@.logs);
        }
        found
    }

    /// The lines logged under `date`, oldest first.
    pub fn get_by_date(&self, date: u32) -> (r: Option<&Vec<String>>)
        ensures
            match r {
                Some(v) => self@.logs.contains_key(date) && texts(v@) == self@.logs[date],
                None => !self@.logs.contains_key(date),
            },
    {
        self._alarms.get(&date)
    }

    /// Every date that has a line in the log, each once.
    pub fn get_all_dates(&self) -> (r: Vec<u32>)
        ensures
            r@.to_set() == self@.logs.dom(),
            r@.no_duplicates(),
    {
        let ghost keys = vstd::std_specs::hash::spec_keys_iter(&self._alarms).remaining();
        let mut v: Vec<u32> = Vec::new();
        for key in it: self._alarms.keys()
            invariant
                it.seq() == keys,
                v@ == keys.take(it.index()).map_values(|k: &u32| *k),
        {
            v.push(*key);
            assert(keys.take(it.index() + 1).map_values(|k: &u32| *k) =~= keys.take(
                it.index(),
            ).map_values(|k: &u32| *k).push(*key));
        }
        assert(keys.take(keys.len() as int) =~= keys);
        assert(v@ =~= keys.unref());
        v
    }
}

} // verus!
