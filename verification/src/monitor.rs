//! The decisions of the monitor's main loop, one tick at a time.
use vstd::prelude::*;

verus! {

/// The time of day (`HHMMSS`) at which the active alarms of the previous
/// day are cleared.
pub const DAY_START: u32 = 90000;

/// What the main loop does in one tick.
#[derive(Debug, Clone, Copy, PartialEq, Eq, Structural)]
pub enum TickAction {
    /// The date is not in the calendar: nothing to do.
    Idle,
    /// A day off: sleep an hour.
    Rest,
    /// A working day: clear the active alarms first when asked, sleep a
    /// second, then check the market and the processes.
    Check { clear_alarms: bool },
}

/// The action of a tick on a date that the calendar marks as `workday`
/// (`None` when the date is not in it), at the time of day `time`, when the
/// previous working tick ran at `before`; and the new `before`.
pub open spec fn tick(workday: Option<bool>, before: u32, time: u32) -> (TickAction, u32) {
    match workday {
        None => (TickAction::Idle, before),
        Some(false) => (TickAction::Rest, before),
        Some(true) => (
            TickAction::Check { clear_alarms: before < DAY_START && time >= DAY_START },
            time,
        ),
    }
}

/// Plans one tick of the main loop; see `tick`.
pub fn plan_tick(workday: Option<bool>, before: u32, time: u32) -> (r: (TickAction, u32))
    ensures
        r == tick(workday, before, time),
{
    match workday {
        None => (TickAction::Idle, before),
        Some(false) => (TickAction::Rest, before),
        Some(true) => {
            let clear = before < DAY_START && time >= DAY_START;
            (TickAction::Check { clear_alarms: clear }, time)
        },
    }
}

/// Over consecutive working ticks, the alarms are cleared exactly on the
/// tick that crosses the start of the day.
pub proof fn law_clear_once_per_morning(before: u32, t1: u32, t2: u32)
    requires
        before < DAY_START,
        DAY_START <= t1,
    ensures
        tick(Some(true), before, t1).0 == (TickAction::Check { clear_alarms: true }),
        tick(Some(true), tick(Some(true), before, t1).1, t2).0 == (TickAction::Check {
            clear_alarms: false,
        }),
{
}

/// On a working day, the tick's own time becomes `before`, whatever it was;
/// the alarms are cleared exactly when the tick crosses the start of the day.
pub proof fn law_working_tick(before: u32, time: u32)
    ensures
        tick(Some(true), before, time).1 == time,
        tick(Some(true), before, time).0 == (TickAction::Check {
            clear_alarms: before < DAY_START && DAY_START <= time,
        }),
{
}

/// Every working morning clears the alarms: whatever the last tick of the
/// day before, a tick before the start of the day followed by one at or
/// after it clears them on the second tick.
pub proof fn law_each_morning_clears(yesterday: u32, early: u32, later: u32)
    requires
        early < DAY_START,
        DAY_START <= later,
    ensures
        tick(Some(true), yesterday, early).0 == (TickAction::Check { clear_alarms: false }),
        tick(Some(true), tick(Some(true), yesterday, early).1, later).0 == (TickAction::Check {
            clear_alarms: true,
        }),
{
}

/// Days off and dates outside the calendar never clear the alarms and
/// leave `before` as it was.
pub proof fn law_idle_ticks_keep_before(workday: Option<bool>, before: u32, time: u32)
    requires
        workday != Some(true),
    ensures
        tick(workday, before, time).1 == before,
        !(tick(workday, before, time).0 is Check),
{
}

} // verus!
