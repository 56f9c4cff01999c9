use hq_monitor::monitor::{plan_tick, TickAction, DAY_START};
use hq_monitor::views::{hello, Person};

#[test]
fn hello_with_age() {
    let p = Person { name: "Ann".to_string(), age: Some(30) };
    assert_eq!(hello(p), "Hello, 30 year old named Ann!");
}

#[test]
fn hello_without_age() {
    let p = Person { name: "Bob".to_string(), age: None };
    assert_eq!(hello(p), "Hello Bob!");
}

#[test]
fn hello_oldest_age() {
    let p = Person { name: "".to_string(), age: Some(255) };
    assert_eq!(hello(p), "Hello, 255 year old named !");
}

#[test]
fn unknown_date_does_nothing() {
    assert_eq!(plan_tick(None, 85000, 95000), (TickAction::Idle, 85000));
}

#[test]
fn day_off_rests() {
    assert_eq!(plan_tick(Some(false), 85000, 95000), (TickAction::Rest, 85000));
}

#[test]
fn morning_tick_clears_alarms_once() {
    let (a, before) = plan_tick(Some(true), 85959, DAY_START);
    assert_eq!(a, TickAction::Check { clear_alarms: true });
    assert_eq!(before, DAY_START);
    let (b, before2) = plan_tick(Some(true), before, 90001);
    assert_eq!(b, TickAction::Check { clear_alarms: false });
    assert_eq!(before2, 90001);
}

#[test]
fn tick_before_day_start_does_not_clear() {
    assert_eq!(plan_tick(Some(true), 80000, 85959), (TickAction::Check { clear_alarms: false }, 85959));
}
