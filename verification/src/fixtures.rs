//! Ready-made values for tests and examples: a typical athlete's
//! settings, a typical workout and a typical rolling context.

use vstd::prelude::*;
use crate::context::{IntensityDistribution, LongestSession, TrainingContext, WeeklyVolume,
    WorkoutSummary};
use crate::settings::UserSettings;
use crate::zones::HrZone;

verus! {

/// Settings of a typical athlete: maximum heart rate 190, threshold 170,
/// threshold power 250, six sessions per week.
pub fn mock_user_settings() -> (r: UserSettings)
    ensures
        r.max_hr == Some(190i64),
        r.lthr == Some(170i64),
        r.ftp == Some(250i64),
        r.training_days_per_week == 6,
        r.wf(),
{
    UserSettings {
        max_hr: Some(190),
        lthr: Some(170),
        ftp: Some(250),
        training_days_per_week: 6,
    }
}

/// A typical one-hour zone-2 workout of the given kind, started the
/// given number of days before `today`.
pub fn mock_workout_summary(activity_type: &str, days_ago: i64, today: i64) -> (r: WorkoutSummary)
    requires
        0 <= today <= crate::clock::MAX_EPOCH_DAY,
        0 <= days_ago <= 100,
    ensures
        r.started_day == today - days_ago,
        r.activity_type@ == activity_type@,
        r.duration_seconds == Some(3600i64),
        r.rtss == Some(5000i64),
        r.hr_zone == Some(HrZone::Z2),
        r.wf(),
{
    WorkoutSummary {
        started_day: today - days_ago,
        activity_type: activity_type.to_owned(),
        duration_seconds: Some(3600),
        rtss: Some(5000),
        hr_zone: Some(HrZone::Z2),
    }
}

/// A rolling context of a loaded week: high acute load, deeply negative
/// balance, mostly aerobic intensity.
pub fn mock_training_context() -> (r: TrainingContext)
    ensures
        r.atl == Some(28000i64),
        r.ctl == Some(25000i64),
        r.tsb == Some(-3000i64),
        r.workouts_this_week == 5,
{
    TrainingContext {
        atl: Some(28000),
        ctl: Some(25000),
        tsb: Some(-3000),
        weekly_volume: WeeklyVolume { total_hrs: 650, run_hrs: 320, ride_hrs: 330, other_hrs: 0 },
        week_over_week_delta_pct: Some(1000),
        intensity_distribution: IntensityDistribution {
            z1_pct: 2000,
            z2_pct: 6000,
            z3_pct: 1500,
            z4_pct: 400,
            z5_pct: 100,
        },
        longest_session: LongestSession { run_min: Some(6000), ride_min: Some(9000) },
        consistency_pct: Some(8500),
        workouts_this_week: 5,
    }
}

} // verus!
