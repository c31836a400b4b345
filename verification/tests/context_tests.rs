//! Rolling-context tests: ATL/CTL/TSB, weekly volume, intensity
//! distribution, longest sessions and the week-over-week delta. Days are
//! day numbers; fractional results are hundredths.

use trainer_log::context::{TrainingContext, WorkoutSummary};
use trainer_log::settings::UserSettings;
use trainer_log::zones::HrZone;

const TODAY: i64 = 20000;

fn settings() -> UserSettings {
    UserSettings { max_hr: Some(190), lthr: Some(170), ftp: Some(250), training_days_per_week: 6 }
}

fn workout(kind: &str, days_ago: i64, duration_s: i64, rtss_centi: i64, zone: HrZone)
    -> WorkoutSummary {
    WorkoutSummary {
        started_day: TODAY - days_ago,
        activity_type: kind.to_string(),
        duration_seconds: Some(duration_s),
        rtss: Some(rtss_centi),
        hr_zone: Some(zone),
    }
}

#[test]
fn test_training_context_atl_ctl_tsb_normal() {
    // Six workouts per week for six weeks, each 60 min at a stress score
    // of 50 points (5000 hundredths); day 4 of each week rests.
    let mut workouts: Vec<WorkoutSummary> = Vec::new();
    for week in 0..6i64 {
        for day in &[1i64, 2, 3, 5, 6, 7] {
            let days_ago = week * 7 + day;
            let kind = if day % 2 == 0 { "Run" } else { "Ride" };
            workouts.push(workout(kind, days_ago, 3600, 5000, HrZone::Z2));
        }
    }

    let context = TrainingContext::compute(&workouts, &settings(), TODAY);

    // ATL: five workouts fall inside the 7-day window: 5 * 50 = 250.
    let atl = context.atl.expect("ATL expected");
    assert!((atl - 25000).abs() < 1000, "ATL {atl}");

    // CTL: 36 workouts * 50 / 42 = 42.86 daily average.
    let ctl = context.ctl.expect("CTL expected");
    assert!((ctl - 4286).abs() < 500, "CTL {ctl}");

    // TSB = CTL - ATL/7 = 42.86 - 35.71 = 7.15.
    let tsb = context.tsb.expect("TSB expected");
    assert!((tsb - 715).abs() < 300, "TSB {tsb}");

    assert_eq!(context.workouts_this_week, 5);
}

#[test]
fn test_training_context_empty_workouts() {
    let workouts: Vec<WorkoutSummary> = vec![];
    let context = TrainingContext::compute(&workouts, &UserSettings::default(), TODAY);

    assert!(context.atl.is_none());
    assert!(context.ctl.is_none());
    assert!(context.tsb.is_none());
    assert_eq!(context.weekly_volume.total_hrs, 0);
    assert_eq!(context.workouts_this_week, 0);
    assert_eq!(context.consistency_pct, Some(0));
}

#[test]
fn test_training_context_single_workout() {
    let workouts = vec![workout("Run", 1, 3600, 5000, HrZone::Z2)];
    let context = TrainingContext::compute(&workouts, &settings(), TODAY);

    // ATL is the lone score: 50.
    assert_eq!(context.atl, Some(5000));

    // CTL is 50/42 = 1.19.
    let ctl = context.ctl.expect("CTL expected");
    assert!((ctl - 119).abs() < 10, "CTL {ctl}");

    // Weekly volume: one hour, all of it running.
    assert_eq!(context.weekly_volume.total_hrs, 100);
    assert_eq!(context.weekly_volume.run_hrs, 100);
    assert_eq!(context.weekly_volume.ride_hrs, 0);

    assert_eq!(context.workouts_this_week, 1);
}

#[test]
fn test_weekly_volume_by_modality() {
    let workouts = vec![
        // Three runs: 60 + 45 + 30 min = 2.25 hrs.
        workout("Run", 1, 3600, 5000, HrZone::Z2),
        workout("Run", 3, 2700, 4000, HrZone::Z2),
        workout("Run", 5, 1800, 2500, HrZone::Z1),
        // Two rides: 90 + 60 min = 2.5 hrs.
        workout("Ride", 2, 5400, 6000, HrZone::Z2),
        workout("Ride", 4, 3600, 4500, HrZone::Z2),
    ];
    let context = TrainingContext::compute(&workouts, &UserSettings::default(), TODAY);

    assert_eq!(context.weekly_volume.total_hrs, 475);
    assert_eq!(context.weekly_volume.run_hrs, 225);
    assert_eq!(context.weekly_volume.ride_hrs, 250);
    assert_eq!(context.weekly_volume.other_hrs, 0);
}

#[test]
fn test_intensity_distribution() {
    let workouts = vec![
        workout("Run", 1, 3600, 2000, HrZone::Z1),   // 60 min Z1
        workout("Ride", 2, 7200, 5000, HrZone::Z2),  // 120 min Z2
        workout("Run", 3, 1800, 4000, HrZone::Z3),   // 30 min Z3
        workout("Run", 4, 1800, 6000, HrZone::Z4),   // 30 min Z4
    ];
    // 240 zoned minutes: 25% / 50% / 12.5% / 12.5% / 0%.
    let context = TrainingContext::compute(&workouts, &UserSettings::default(), TODAY);
    let dist = &context.intensity_distribution;
    assert_eq!(dist.z1_pct, 2500);
    assert_eq!(dist.z2_pct, 5000);
    assert_eq!(dist.z3_pct, 1250);
    assert_eq!(dist.z4_pct, 1250);
    assert_eq!(dist.z5_pct, 0);
}

#[test]
fn test_longest_session_tracking() {
    let workouts = vec![
        // Runs: 30, 45, 90, 60 min; the longest is 90.
        workout("Run", 1, 1800, 2500, HrZone::Z2),
        workout("Run", 5, 2700, 4000, HrZone::Z2),
        workout("Run", 10, 5400, 7500, HrZone::Z2),
        workout("Run", 15, 3600, 5000, HrZone::Z2),
        // Rides: 60, 120, 45 min; the longest is 120.
        workout("Ride", 2, 3600, 4500, HrZone::Z2),
        workout("Ride", 8, 7200, 8000, HrZone::Z2),
        workout("Ride", 20, 2700, 3500, HrZone::Z2),
    ];
    let context = TrainingContext::compute(&workouts, &UserSettings::default(), TODAY);

    assert_eq!(context.longest_session.run_min, Some(9000));
    assert_eq!(context.longest_session.ride_min, Some(12000));
}

#[test]
fn test_week_over_week_delta_edge_cases() {
    // First week with data: exactly +100%.
    let first_week = vec![workout("Run", 2, 3600, 5000, HrZone::Z2)];
    let ctx_first = TrainingContext::compute(&first_week, &UserSettings::default(), TODAY);
    assert_eq!(ctx_first.week_over_week_delta_pct, Some(10000));

    // This week 6 hrs, last week 4 hrs: +50%.
    let mut increased: Vec<WorkoutSummary> = Vec::new();
    for day in 8..12i64 {
        increased.push(workout("Run", day, 3600, 5000, HrZone::Z2));
    }
    for day in 1..7i64 {
        increased.push(workout("Run", day, 3600, 5000, HrZone::Z2));
    }
    let ctx_increased = TrainingContext::compute(&increased, &UserSettings::default(), TODAY);
    let delta = ctx_increased.week_over_week_delta_pct.expect("delta expected");
    assert!((delta - 5000).abs() < 500, "delta {delta}");

    // This week 2 hrs, last week 5 hrs: -60%.
    let mut decreased: Vec<WorkoutSummary> = Vec::new();
    for day in 8..13i64 {
        decreased.push(workout("Run", day, 3600, 5000, HrZone::Z2));
    }
    for day in &[2i64, 5] {
        decreased.push(workout("Run", *day, 3600, 5000, HrZone::Z2));
    }
    let ctx_decreased = TrainingContext::compute(&decreased, &UserSettings::default(), TODAY);
    let delta_down = ctx_decreased.week_over_week_delta_pct.expect("delta expected");
    assert!((delta_down - (-6000)).abs() < 500, "delta {delta_down}");
}

#[test]
fn test_aggregator_idempotent() {
    let workouts = vec![
        workout("Run", 1, 3600, 5000, HrZone::Z2),
        workout("Ride", 9, 5400, 6000, HrZone::Z3),
    ];
    let a = TrainingContext::compute(&workouts, &settings(), TODAY);
    let b = TrainingContext::compute(&workouts, &settings(), TODAY);
    assert_eq!(a, b);
}
