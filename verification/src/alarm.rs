//! Alarms and the set of alarms that are active.
//!
//! An alarm is known by its key, the pair of its id and its target. The
//! active alarms never hold two alarms with one key, nor an alarm with id 0.
use vstd::prelude::*;

use crate::config::Configuration;
use crate::text::{debug_quoted, debug_text, decimal, push_decimal};

verus! {

/// One alarm raised by a monitor.
#[derive(Debug)]
pub struct Alarm {
    pub _id: u32,
    pub _source: String,
    pub _target: String,
    pub _time: String,
    pub _env: String,
    pub _description: String,
}

impl Clone for Alarm {
    fn clone(&self) -> (r: Self)
        ensures
            r == *self,
    {
        Alarm {
            _id: self._id,
            _source: self._source.clone(),
            _target: self._target.clone(),
            _time: self._time.clone(),
            _env: self._env.clone(),
            _description: self._description.clone(),
        }
    }
}

impl Alarm {
    /// The text of the alarm, given its time already quoted.
    pub open spec fn line_with(self, quoted_time: Seq<char>) -> Seq<char> {
        "["@ + quoted_time + "]: ID:"@ + decimal(self._id as nat) + ", SOURCE: "@ + self._source@
            + ", ENV:"@ + self._env@ + ", TARGET: "@ + self._target@ + ", DETAILS: "@
            + self._description@
    }

    /// The text of the alarm, as it is sent and logged.
    pub open spec fn text(self) -> Seq<char> {
        self.line_with(debug_quoted(self._time@))
    }

    /// An alarm with id 0 and every text empty.
    pub fn new() -> (r: Alarm)
        ensures
            r._id == 0,
            r._source@ == Seq::<char>::empty(),
            r._target@ == Seq::<char>::empty(),
            r._time@ == Seq::<char>::empty(),
            r._env@ == Seq::<char>::empty(),
            r._description@ == Seq::<char>::empty(),
    {
        Alarm {
            _id: 0,
            _source: String::new(),
            _target: String::new(),
            _time: String::new(),
            _description: String::new(),
            _env: String::new(),
        }
    }

    pub fn get_source(&self) -> (r: &String)
        ensures
            *r == self._source,
    {
        &self._source
    }

    pub fn get_target(&self) -> (r: &String)
        ensures
            *r == self._target,
    {
        &self._target
    }

    pub fn get_description(&self) -> (r: &String)
        ensures
            *r == self._description,
    {
        &self._description
    }

    pub fn get_time(&self) -> (r: &String)
        ensures
            *r == self._time,
    {
        &self._time
    }

    pub fn get_env(&self) -> (r: &String)
        ensures
            *r == self._env,
    {
        &self._env
    }

    /// The text of the alarm with `quoted_time` standing for its time.
    pub fn describe(&self, quoted_time: &str) -> (r: String)
        ensures
            r@ == self.line_with(quoted_time@),
    {
        let mut s = String::new();
        s.append("[");
        s.append(quoted_time);
        s.append("]: ID:");
        push_decimal(&mut s, self._id);
        s.append(", SOURCE: ");
        s.append(self.get_source().as_str());
        s.append(", ENV:");
        s.append(self.get_env().as_str());
        s.append(", TARGET: ");
        s.append(self.get_target().as_str());
        s.append(", DETAILS: ");
        s.append(self.get_description().as_str());
        assert(s@ =~= self.line_with(quoted_time@));
        s
    }

    /// The text of the alarm: its time as `{:?}` shows it, then its id,
    /// source, environment, target and details.
    pub fn as_str(&self) -> (r: String)
        ensures
            r@ == self.text(),
    {
        let quoted = debug_text(self.get_time().as_str());
        self.describe(quoted.as_str())
    }
}

/// `a` is known by the key (`id`, `target`).
pub open spec fn same_key(a: Alarm, id: u32, target: Seq<char>) -> bool {
    a._id == id && a._target@ == target
}

/// Some alarm of `s` is known by the key (`id`, `target`).
pub open spec fn has_key(s: Seq<Alarm>, id: u32, target: Seq<char>) -> bool {
    exists|i: int| 0 <= i < s.len() && same_key(#[trigger] s[i], id, target)
}

/// The position of the alarm of `s` known by the key (`id`, `target`).
pub open spec fn key_index(s: Seq<Alarm>, id: u32, target: Seq<char>) -> int {
    choose|i: int| 0 <= i < s.len() && same_key(#[trigger] s[i], id, target)
}

/// No alarm of `s` has id 0, and no two share a key.
pub open spec fn active_ok(s: Seq<Alarm>) -> bool {
    &&& forall|i: int| 0 <= i < s.len() ==> (#[trigger] s[i])._id != 0
    &&& forall|i: int, j: int|
        0 <= i < j < s.len() ==> !same_key(#[trigger] s[i], (#[trigger] s[j])._id, s[j]._target@)
}

/// Raising `a` activates it: it joins the end of `s` unless its id is 0 or
/// its key is already active.
pub open spec fn raised(s: Seq<Alarm>, a: Alarm) -> bool {
    a._id != 0 && !has_key(s, a._id, a._target@)
}

/// The active alarms after `a` is raised.
pub open spec fn with_alarm(s: Seq<Alarm>, a: Alarm) -> Seq<Alarm> {
    if raised(s, a) {
        s.push(a)
    } else {
        s
    }
}

/// The active alarms after the alarm with key (`id`, `target`) is disabled.
pub open spec fn without_key(s: Seq<Alarm>, id: u32, target: Seq<char>) -> Seq<Alarm> {
    if has_key(s, id, target) {
        s.remove(key_index(s, id, target))
    } else {
        s
    }
}

/// In a well-formed list, a key is held at one position at most.
pub proof fn lemma_key_unique(s: Seq<Alarm>, id: u32, target: Seq<char>, i: int)
    requires
        active_ok(s),
        0 <= i < s.len(),
        same_key(s[i], id, target),
    ensures
        has_key(s, id, target),
        key_index(s, id, target) == i,
{
    let k = key_index(s, id, target);
    assert(same_key(s[k], id, target));
    if k < i {
        assert(!same_key(s[k], s[i]._id, s[i]._target@));
    } else if i < k {
        assert(!same_key(s[i], s[k]._id, s[k]._target@));
    }
}

/// Raising an alarm keeps the active alarms well formed.
pub proof fn law_raise_keeps_invariant(s: Seq<Alarm>, a: Alarm)
    requires
        active_ok(s),
    ensures
        active_ok(with_alarm(s, a)),
{
    if raised(s, a) {
        let t = s.push(a);
        assert forall|i: int, j: int| 0 <= i < j < t.len() implies !same_key(
            #[trigger] t[i],
            (#[trigger] t[j])._id,
            t[j]._target@,
        ) by {
            assert(s[i] == t[i]);
            if j < s.len() {
                assert(s[j] == t[j]);
            }
        }
        assert forall|i: int| 0 <= i < t.len() implies (#[trigger] t[i])._id != 0 by {
            if i < s.len() {
                assert(s[i] == t[i]);
            }
        }
    }
}

/// Disabling an alarm keeps the active alarms well formed.
pub proof fn law_disable_keeps_invariant(s: Seq<Alarm>, id: u32, target: Seq<char>)
    requires
        active_ok(s),
    ensures
        active_ok(without_key(s, id, target)),
{
    if has_key(s, id, target) {
        let k = key_index(s, id, target);
        let t = s.remove(k);
        assert forall|a: int| 0 <= a < t.len() implies (#[trigger] t[a])._id != 0 by {
            if a < k {
                assert(t[a] == s[a]);
            } else {
                assert(t[a] == s[a + 1]);
            }
        }
        assert forall|a: int, b: int| 0 <= a < b < t.len() implies !same_key(
            #[trigger] t[a],
            (#[trigger] t[b])._id,
            t[b]._target@,
        ) by {
            let a2 = if a < k { a } else { a + 1 };
            let b2 = if b < k { b } else { b + 1 };
            assert(t[a] == s[a2] && t[b] == s[b2]);
            assert(!same_key(s[a2], s[b2]._id, s[b2]._target@));
        }
    }
}

/// After an alarm with a nonzero id is raised, an alarm with its key is active.
pub proof fn law_raised_alarm_is_active(s: Seq<Alarm>, a: Alarm)
    requires
        a._id != 0,
    ensures
        has_key(with_alarm(s, a), a._id, a._target@),
{
    if raised(s, a) {
        let t = s.push(a);
        assert(same_key(t[s.len() as int], a._id, a._target@));
    }
}

/// Raising the same alarm twice changes nothing more than raising it once.
pub proof fn law_raise_idempotent(s: Seq<Alarm>, a: Alarm)
    ensures
        with_alarm(with_alarm(s, a), a) == with_alarm(s, a),
{
    if a._id != 0 {
        law_raised_alarm_is_active(s, a);
    }
}

/// Disabling the key of an alarm that was just activated gives back the
/// active alarms as they were before.
pub proof fn law_disable_undoes_raise(s: Seq<Alarm>, a: Alarm)
    requires
        active_ok(s),
        raised(s, a),
    ensures
        without_key(with_alarm(s, a), a._id, a._target@) == s,
{
    let t = s.push(a);
    law_raise_keeps_invariant(s, a);
    lemma_key_unique(t, a._id, a._target@, s.len() as int);
    assert(t.remove(s.len() as int) =~= s);
}

/// Once its key is disabled, no alarm with that key stays active.
pub proof fn law_disabled_key_is_inactive(s: Seq<Alarm>, id: u32, target: Seq<char>)
    requires
        active_ok(s),
    ensures
        !has_key(without_key(s, id, target), id, target),
{
    if has_key(s, id, target) {
        let k = key_index(s, id, target);
        let t = s.remove(k);
        if has_key(t, id, target) {
            let j = choose|j: int| 0 <= j < t.len() && same_key(#[trigger] t[j], id, target);
            let j2 = if j < k { j } else { j + 1 };
            assert(t[j] == s[j2]);
            lemma_key_unique(s, id, target, j2);
        }
    }
}

/// The alarms that are active, with the configuration used to report them.
pub struct Alarms {
    _alarms: Vec<Alarm>,
    _config: Option<Configuration>,
}

impl View for Alarms {
    type V = Seq<Alarm>;

    closed spec fn view(&self) -> Seq<Alarm> {
        self._alarms@
    }
}

impl Alarms {
    /// The configuration the alarms were given last.
    pub closed spec fn config(&self) -> Option<Configuration> {
        self._config
    }

    /// The active alarms never hold id 0 nor two alarms with one key.
    #[verifier::type_invariant]
    pub open spec fn well_formed(self) -> bool {
        active_ok(self@)
    }

    /// No active alarm and no configuration.
    pub fn new() -> (r: Alarms)
        ensures
            r@ == Seq::<Alarm>::empty(),
            r.config() is None,
    {
        Alarms { _alarms: Vec::new(), _config: None }
    }

    pub fn set_config(&mut self, config: Configuration)
        ensures
            final(self)@ == old(self)@,
            final(self).config() == Some(config),
    {
        proof {
            use_type_invariant(&*self);
        }
        self._config = Some(config);
    }

    /// The configuration the alarms were given last.
    pub fn get_config(&self) -> (r: &Option<Configuration>)
        ensures
            *r == self.config(),
    {
        &self._config
    }

    /// The active alarms, oldest first.
    pub fn alarms(&self) -> (r: &Vec<Alarm>)
        ensures
            r@ == self@,
            active_ok(self@),
    {
        proof {
            use_type_invariant(self);
        }
        &self._alarms
    }

    /// Deactivates every alarm.
    pub fn clear(&mut self)
        ensures
            final(self)@ == Seq::<Alarm>::empty(),
            final(self).config() == old(self).config(),
    {
        self._alarms = Vec::new();
    }

    /// An active alarm has the id and target of `alarm`.
    pub fn contains(&self, alarm: &Alarm) -> (r: bool)
        ensures
            r == has_key(self@, alarm._id, alarm._target@),
    {
        let n = self._alarms.len();
        let mut i: usize = 0;
        while i < n
            invariant
                i <= n,
                n == self@.len(),
                forall|j: int| 0 <= j < i ==> !same_key(#[trigger] self@[j], alarm._id, alarm._target@),
            decreases n - i,
        {
            let a = &self._alarms[i];
            if a._id == alarm._id && a._target == alarm._target {
                return true;
            }
            i = i + 1;
        }
        false
    }

    /// The position of the first active alarm with the key (`id`, `target`).
    pub fn find(&self, id: u32, target: &String) -> (r: Option<usize>)
        ensures
            match r {
                Some(i) => {
                    &&& i < self@.len()
                    &&& same_key(self@[i as int], id, target@)
                    &&& forall|j: int| 0 <= j < i ==> !same_key(#[trigger] self@[j], id, target@)
                },
                None => !has_key(self@, id, target@),
            },
    {
        let n = self._alarms.len();
        let mut i: usize = 0;
        while i < n
            invariant
                i <= n,
                n == self@.len(),
                forall|j: int| 0 <= j < i ==> !same_key(#[trigger] self@[j], id, target@),
            decreases n - i,
        {
            let y = &self._alarms[i];
            if target.eq(y.get_target()) && y._id == id {
                return Some(i);
            }
            i = i + 1;
        }
        None
    }

    /// Raises `alarm`. It becomes active unless its id is 0 or an alarm with
    /// its key is active already; then its text is handed back, to be sent
    /// and logged.
    pub fn active_alarm(&mut self, alarm: Alarm) -> (r: Option<String>)
        ensures
            active_ok(final(self)@),
            final(self)@ == with_alarm(old(self)@, alarm),
            final(self).config() == old(self).config(),
            match r {
                Some(s) => raised(old(self)@, alarm) && s@ == alarm.text(),
                None => !raised(old(self)@, alarm),
            },
    {
        proof {
            use_type_invariant(&*self);
        }
        if alarm._id == 0 {
            return None;
        }
        if self.contains(&alarm) {
            return None;
        }
        let line = alarm.as_str();
        proof {
            law_raise_keeps_invariant(self@, alarm);
        }
        let mut alarms: Vec<Alarm> = Vec::new();
        std::mem::swap(&mut alarms, &mut self._alarms);
        alarms.push(alarm);
        self._alarms = alarms;
        Some(line)
    }

    /// Deactivates the alarm with the key (`id`, `target`), if one is active.
    pub fn disable_alarm(&mut self, id: u32, target: &String) -> (r: bool)
        ensures
            active_ok(final(self)@),
            final(self)@ == without_key(old(self)@, id, target@),
            final(self).config() == old(self).config(),
            r == has_key(old(self)@, id, target@),
    {
        proof {
            use_type_invariant(&*self);
        }
        match self.find(id, target) {
            Some(i) => {
                proof {
                    lemma_key_unique(self@, id, target@, i as int);
                    law_disable_keeps_invariant(self@, id, target@);
                }
                let mut alarms: Vec<Alarm> = Vec::new();
                std::mem::swap(&mut alarms, &mut self._alarms);
                alarms.remove(i);
                self._alarms = alarms;
                true
            },
            None => false,
        }
    }
}

} // verus!
