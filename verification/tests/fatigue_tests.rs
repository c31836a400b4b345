//! Fatigue-context tests: TSB bands, allowed durations and recovery
//! trends. TSB and sleep values are hundredths.

use trainer_log::context::{IntensityDistribution, LongestSession, TrainingContext, WeeklyVolume};
use trainer_log::fatigue::{AllowedDurations, FatigueContext};
use trainer_log::recovery::OuraContext;

fn context_with_tsb(atl: i64, ctl: i64, tsb: i64, workouts: i32) -> TrainingContext {
    TrainingContext {
        atl: Some(atl),
        ctl: Some(ctl),
        tsb: Some(tsb),
        weekly_volume: WeeklyVolume { total_hrs: 0, run_hrs: 0, ride_hrs: 0, other_hrs: 0 },
        week_over_week_delta_pct: None,
        intensity_distribution: IntensityDistribution {
            z1_pct: 0,
            z2_pct: 0,
            z3_pct: 0,
            z4_pct: 0,
            z5_pct: 0,
        },
        longest_session: LongestSession { run_min: None, ride_min: None },
        consistency_pct: None,
        workouts_this_week: workouts,
    }
}

#[test]
fn test_allowed_durations_from_tsb_band() {
    // Fresh: long recommended, 45/60/60.
    let fresh = AllowedDurations::from_tsb_band("fresh");
    assert_eq!(fresh.z2_ride.short, 45);
    assert_eq!(fresh.z2_ride.standard, 60);
    assert_eq!(fresh.z2_ride.long, 60);
    assert_eq!(fresh.z2_ride.recommended, "long");

    // Slightly fatigued: standard recommended, 40/45/60.
    let slight = AllowedDurations::from_tsb_band("slightly_fatigued");
    assert_eq!(slight.z2_ride.short, 40);
    assert_eq!(slight.z2_ride.standard, 45);
    assert_eq!(slight.z2_ride.long, 60);
    assert_eq!(slight.z2_ride.recommended, "standard");

    // Moderate fatigue: short recommended, 40/45/45.
    let moderate = AllowedDurations::from_tsb_band("moderate_fatigue");
    assert_eq!(moderate.z2_ride.short, 40);
    assert_eq!(moderate.z2_ride.standard, 45);
    assert_eq!(moderate.z2_ride.long, 45);
    assert_eq!(moderate.z2_ride.recommended, "short");

    // High fatigue: short recommended, 30/40/40.
    let high = AllowedDurations::from_tsb_band("high_fatigue");
    assert_eq!(high.z2_ride.short, 30);
    assert_eq!(high.z2_ride.standard, 40);
    assert_eq!(high.z2_ride.long, 40);
    assert_eq!(high.z2_ride.recommended, "short");

    // Unknown band: standard by default.
    let unknown = AllowedDurations::from_tsb_band("unknown");
    assert_eq!(unknown.z2_ride.recommended, "standard");
}

#[test]
fn test_fatigue_context_tsb_bands() {
    // Fresh: TSB above +5.
    let fatigue_fresh = FatigueContext::from_training_context(&context_with_tsb(
        20000, 25000, 1000, 5,
    ));
    assert_eq!(fatigue_fresh.tsb_band, "fresh");
    assert_eq!(fatigue_fresh.tsb, Some(1000));

    // Slightly fatigued: TSB -10 to +5.
    let fatigue_slight = FatigueContext::from_training_context(&context_with_tsb(
        28000, 25000, -500, 6,
    ));
    assert_eq!(fatigue_slight.tsb_band, "slightly_fatigued");

    // Moderate fatigue: TSB -20 to -10.
    let fatigue_moderate = FatigueContext::from_training_context(&context_with_tsb(
        35000, 25000, -1500, 7,
    ));
    assert_eq!(fatigue_moderate.tsb_band, "moderate_fatigue");

    // High fatigue: TSB below -20.
    let fatigue_high = FatigueContext::from_training_context(&context_with_tsb(
        45000, 25000, -3000, 8,
    ));
    assert_eq!(fatigue_high.tsb_band, "high_fatigue");
}

#[test]
fn test_compute_sleep_debt_with_deficit() {
    // 6.5 hr average against the 8 hr target: 1.5 hr for 7 days = 10.5.
    let result = OuraContext::compute_sleep_debt(Some(650));
    assert_eq!(result, Some(1050));
}

#[test]
fn test_compute_sleep_debt_no_deficit() {
    // 8.5 hr average: no debt.
    let result = OuraContext::compute_sleep_debt(Some(850));
    assert_eq!(result, None);
}

#[test]
fn test_compute_sleep_debt_none() {
    let result = OuraContext::compute_sleep_debt(None);
    assert_eq!(result, None);
}

#[test]
fn test_hrv_trend_declining() {
    // 45 ms against an average of 55 ms: -18%, declining.
    let result = OuraContext::determine_hrv_trend(Some(4500), Some(5500));
    assert_eq!(result, Some("declining".to_string()));
}

#[test]
fn test_hrv_trend_improving() {
    // 60 ms against an average of 55 ms: +9%, improving.
    let result = OuraContext::determine_hrv_trend(Some(6000), Some(5500));
    assert_eq!(result, Some("improving".to_string()));
}

#[test]
fn test_hrv_trend_stable() {
    // 56 ms against an average of 55 ms: +1.8%, stable.
    let result = OuraContext::determine_hrv_trend(Some(5600), Some(5500));
    assert_eq!(result, Some("stable".to_string()));
}

#[test]
fn test_resting_hr_trend_up() {
    // 55 against an average of 50: +5, up.
    let result = OuraContext::determine_resting_hr_trend(Some(55), Some(50));
    assert_eq!(result, Some("up".to_string()));
}

#[test]
fn test_resting_hr_trend_down() {
    // 48 against an average of 52: -4, down.
    let result = OuraContext::determine_resting_hr_trend(Some(48), Some(52));
    assert_eq!(result, Some("down".to_string()));
}

#[test]
fn test_resting_hr_trend_stable() {
    // 51 against an average of 50: +1, stable.
    let result = OuraContext::determine_resting_hr_trend(Some(51), Some(50));
    assert_eq!(result, Some("stable".to_string()));
}
