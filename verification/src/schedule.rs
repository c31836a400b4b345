//! Schedule awareness: the weekly training pattern and the day context
//! handed to the renderer. Weekdays are numbered 0 (Monday) through 6
//! (Sunday).

use vstd::prelude::*;

verus! {

/// The name of a weekday, numbered from Monday.
pub open spec fn spec_day_name(w: int) -> Seq<char> {
    if w == 0 {
        "Monday"@
    } else if w == 1 {
        "Tuesday"@
    } else if w == 2 {
        "Wednesday"@
    } else if w == 3 {
        "Thursday"@
    } else if w == 4 {
        "Friday"@
    } else if w == 5 {
        "Saturday"@
    } else {
        "Sunday"@
    }
}

/// The session the default week expects on a weekday: rides Monday,
/// Wednesday and Friday, runs Tuesday and Thursday, the long run
/// Saturday, rest Sunday.
pub open spec fn spec_expected_type(w: int) -> Seq<char> {
    if w == 0 {
        "ride"@
    } else if w == 1 {
        "run"@
    } else if w == 2 {
        "ride"@
    } else if w == 3 {
        "run"@
    } else if w == 4 {
        "ride"@
    } else if w == 5 {
        "run_long"@
    } else {
        "rest"@
    }
}

/// Name a weekday.
pub fn day_name(w: u8) -> (r: &'static str)
    requires
        w < 7,
    ensures
        r@ == spec_day_name(w as int),
{
    match w {
        0 => "Monday",
        1 => "Tuesday",
        2 => "Wednesday",
        3 => "Thursday",
        4 => "Friday",
        5 => "Saturday",
        _ => "Sunday",
    }
}

/// The session the default week expects on a weekday.
pub fn expected_type(w: u8) -> (r: &'static str)
    requires
        w < 7,
    ensures
        r@ == spec_expected_type(w as int),
{
    match w {
        0 => "ride",
        1 => "run",
        2 => "ride",
        3 => "run",
        4 => "ride",
        5 => "run_long",
        _ => "rest",
    }
}

/// The default weekly training pattern, one entry per day.
#[derive(Debug, Clone, PartialEq)]
pub struct WeeklyPattern {
    /// Monday's session.
    pub monday: String,
    /// Tuesday's session.
    pub tuesday: String,
    /// Wednesday's session.
    pub wednesday: String,
    /// Thursday's session.
    pub thursday: String,
    /// Friday's session.
    pub friday: String,
    /// Saturday's session.
    pub saturday: String,
    /// Sunday's session.
    pub sunday: String,
}

impl Default for WeeklyPattern {
    /// The default week: rides Monday, Wednesday and Friday, runs Tuesday
    /// and Thursday, the long run Saturday, rest Sunday.
    fn default() -> (r: Self)
        ensures
            r.monday@ == "ride"@,
            r.tuesday@ == "run"@,
            r.wednesday@ == "ride"@,
            r.thursday@ == "run"@,
            r.friday@ == "ride"@,
            r.saturday@ == "run_long"@,
            r.sunday@ == "rest"@,
    {
        WeeklyPattern {
            monday: String::from_str("ride"),
            tuesday: String::from_str("run"),
            wednesday: String::from_str("ride"),
            thursday: String::from_str("run"),
            friday: String::from_str("ride"),
            saturday: String::from_str("run_long"),
            sunday: String::from_str("rest"),
        }
    }
}

/// Day awareness for the renderer: today, tomorrow, and what the week
/// expects tomorrow.
#[derive(Debug, Clone, PartialEq)]
pub struct ScheduleContext {
    /// Today's name.
    pub today_is: String,
    /// Tomorrow's name.
    pub tomorrow_is: String,
    /// The session the week expects tomorrow.
    pub tomorrow_expected_type: String,
    /// The whole weekly pattern.
    pub weekly_pattern: WeeklyPattern,
}

impl ScheduleContext {
    /// Build the schedule context from today's weekday, numbered 0
    /// (Monday) through 6 (Sunday).
    pub fn build(today_weekday: u8) -> (r: ScheduleContext)
        requires
            today_weekday < 7,
        ensures
            r.today_is@ == spec_day_name(today_weekday as int),
            r.tomorrow_is@ == spec_day_name((today_weekday as int + 1) % 7),
            r.tomorrow_expected_type@ == spec_expected_type((today_weekday as int + 1) % 7),
    {
        let tomorrow = (today_weekday + 1) % 7;
        ScheduleContext {
            today_is: String::from_str(day_name(today_weekday)),
            tomorrow_is: String::from_str(day_name(tomorrow)),
            tomorrow_expected_type: String::from_str(expected_type(tomorrow)),
            weekly_pattern: WeeklyPattern::default(),
        }
    }
}

} // verus!
