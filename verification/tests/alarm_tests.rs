use hq_monitor::alarm::{Alarm, Alarms};
use hq_monitor::config::{Configuration, TradeSession};

fn alarm(id: u32, target: &str) -> Alarm {
    let mut a = Alarm::new();
    a._id = id;
    a._target = target.to_string();
    a._source = "src".to_string();
    a._env = "prod".to_string();
    a._description = "details".to_string();
    a
}

fn config() -> Configuration {
    Configuration::new(
        "prod".to_string(),
        "/data/show2003.dbf".to_string(),
        30,
        vec!["feed".to_string()],
        vec![TradeSession { start: 93000, end: 113000 }],
    )
}

#[test]
fn new_alarm_is_empty() {
    let a = Alarm::new();
    assert_eq!(a._id, 0);
    assert_eq!(a.get_source(), "");
    assert_eq!(a.get_target(), "");
    assert_eq!(a.get_description(), "");
    assert_eq!(a.get_time(), "");
    assert_eq!(a.get_env(), "");
}

#[test]
fn getters_give_fields() {
    let mut a = alarm(3, "t");
    a._time = "now".to_string();
    assert_eq!(a.get_source(), "src");
    assert_eq!(a.get_target(), "t");
    assert_eq!(a.get_description(), "details");
    assert_eq!(a.get_time(), "now");
    assert_eq!(a.get_env(), "prod");
}

#[test]
fn alarm_text_quotes_time() {
    let mut a = alarm(7, "SH_TXT_FILE");
    a._time = "10:00".to_string();
    assert_eq!(
        a.as_str(),
        "[\"10:00\"]: ID:7, SOURCE: src, ENV:prod, TARGET: SH_TXT_FILE, DETAILS: details"
    );
}

#[test]
fn alarm_text_escapes_time() {
    let mut a = alarm(1, "t");
    a._time = "a\"b\n".to_string();
    assert_eq!(
        a.as_str(),
        "[\"a\\\"b\\n\"]: ID:1, SOURCE: src, ENV:prod, TARGET: t, DETAILS: details"
    );
    let empty = alarm(2, "t");
    assert!(empty.as_str().starts_with("[\"\"]: ID:2,"));
}

#[test]
fn describe_uses_given_time() {
    let a = alarm(12, "x");
    assert_eq!(
        a.describe("T"),
        "[T]: ID:12, SOURCE: src, ENV:prod, TARGET: x, DETAILS: details"
    );
}

#[test]
fn clone_keeps_fields() {
    let a = alarm(5, "t");
    let b = a.clone();
    assert_eq!(b._id, 5);
    assert_eq!(b._target, "t");
    assert_eq!(b.as_str(), a.as_str());
}

#[test]
fn raising_activates_once() {
    let mut s = Alarms::new();
    let line = s.active_alarm(alarm(7, "t"));
    assert_eq!(
        line.as_deref(),
        Some("[\"\"]: ID:7, SOURCE: src, ENV:prod, TARGET: t, DETAILS: details")
    );
    assert!(s.contains(&alarm(7, "t")));
    assert_eq!(s.active_alarm(alarm(7, "t")), None);
    assert_eq!(s.alarms().len(), 1);
}

#[test]
fn alarm_with_id_zero_is_ignored() {
    let mut s = Alarms::new();
    assert_eq!(s.active_alarm(alarm(0, "t")), None);
    assert_eq!(s.alarms().len(), 0);
    assert!(!s.contains(&alarm(0, "t")));
}

#[test]
fn key_is_id_and_target() {
    let mut s = Alarms::new();
    assert!(s.active_alarm(alarm(7, "a")).is_some());
    assert!(s.active_alarm(alarm(7, "b")).is_some());
    assert!(s.active_alarm(alarm(8, "a")).is_some());
    assert_eq!(s.alarms().len(), 3);
    assert_eq!(s.find(7, &"b".to_string()), Some(1));
    assert_eq!(s.find(8, &"a".to_string()), Some(2));
    assert_eq!(s.find(8, &"b".to_string()), None);
}

#[test]
fn disabling_removes_the_key() {
    let mut s = Alarms::new();
    s.active_alarm(alarm(1, "a"));
    s.active_alarm(alarm(2, "b"));
    s.active_alarm(alarm(3, "c"));
    assert!(s.disable_alarm(2, &"b".to_string()));
    assert!(!s.contains(&alarm(2, "b")));
    let ids: Vec<u32> = s.alarms().iter().map(|a| a._id).collect();
    assert_eq!(ids, vec![1, 3]);
    assert!(!s.disable_alarm(2, &"b".to_string()));
}

#[test]
fn disable_undoes_raise() {
    let mut s = Alarms::new();
    s.active_alarm(alarm(1, "a"));
    s.active_alarm(alarm(4, "d"));
    assert!(s.disable_alarm(4, &"d".to_string()));
    let ids: Vec<u32> = s.alarms().iter().map(|a| a._id).collect();
    assert_eq!(ids, vec![1]);
}

#[test]
fn clear_and_config() {
    let mut s = Alarms::new();
    assert!(s.get_config().is_none());
    s.set_config(config());
    s.active_alarm(alarm(1, "a"));
    s.clear();
    assert_eq!(s.alarms().len(), 0);
    assert_eq!(s.get_config().as_ref().map(|c| c._env.clone()), Some("prod".to_string()));
}
