//! Flag-evaluator tests: volume spike and drop, fatigue and form bands,
//! long-session gaps, intensity patterns, and the rendering priority.

use trainer_log::context::{TrainingContext, WorkoutSummary};
use trainer_log::dimension::{LifecycleStatus, ProgressionDimension};
use trainer_log::flags::TrainingFlags;
use trainer_log::settings::UserSettings;
use trainer_log::step::{DimensionValue, StepConfig};
use trainer_log::zones::HrZone;

const TODAY: i64 = 20000;

fn settings() -> UserSettings {
    UserSettings { max_hr: Some(190), lthr: Some(170), ftp: None, training_days_per_week: 6 }
}

fn workout(kind: &str, days_ago: i64, duration_s: i64, rtss_centi: i64, zone: HrZone)
    -> WorkoutSummary {
    WorkoutSummary {
        started_day: TODAY - days_ago,
        activity_type: kind.to_string(),
        duration_seconds: Some(duration_s),
        rtss: Some(rtss_centi),
        hr_zone: Some(zone),
    }
}

fn long_run_dimension() -> ProgressionDimension {
    ProgressionDimension {
        id: 1,
        name: "long_run".to_string(),
        current_value: DimensionValue::Minutes(60),
        ceiling_value: DimensionValue::Minutes(90),
        step_config: StepConfig::Increment { increment: 5, unit: "min".to_string() },
        status: LifecycleStatus::Building,
        last_change_at: Some(TODAY),
        last_ceiling_touch_at: None,
        maintenance_cadence_days: 14,
        created_at: TODAY,
        updated_at: TODAY,
    }
}

fn z2_ride_dimension() -> ProgressionDimension {
    ProgressionDimension {
        id: 2,
        name: "z2_ride".to_string(),
        current_value: DimensionValue::Minutes(45),
        ceiling_value: DimensionValue::Minutes(60),
        step_config: StepConfig::Regulated { options: vec![30, 45, 60], unit: "min".to_string() },
        status: LifecycleStatus::AtCeiling,
        last_change_at: Some(TODAY),
        last_ceiling_touch_at: None,
        maintenance_cadence_days: 10,
        created_at: TODAY,
        updated_at: TODAY,
    }
}

#[test]
fn test_flags_volume_spike_and_drop() {
    // Chronic: four weeks of moderate training, three 40-point workouts
    // per week. Acute: a spike of six 70-point workouts this week.
    let mut workouts: Vec<WorkoutSummary> = Vec::new();
    for week in 2..6i64 {
        for day in &[1i64, 3, 5] {
            workouts.push(workout("Run", week * 7 + day, 2400, 4000, HrZone::Z2));
        }
    }
    for day in 1..=6i64 {
        workouts.push(workout("Run", day, 4200, 7000, HrZone::Z3));
    }
    let dimensions = vec![long_run_dimension()];

    let context = TrainingContext::compute(&workouts, &settings(), TODAY);
    let flags = TrainingFlags::compute(&workouts, &context, &settings(), &dimensions, TODAY);

    // ATL = 420 against a chronic weekly average of about 120.
    assert!(flags.volume_spike, "volume spike expected");
}

#[test]
fn test_flags_fatigue_and_form() {
    let dimensions: Vec<ProgressionDimension> = vec![];

    // High fatigue: steady chronic load, then a massive acute spike.
    let mut fatigued: Vec<WorkoutSummary> = Vec::new();
    for week in 1..7i64 {
        for day in &[1i64, 2, 3, 5, 6] {
            fatigued.push(workout("Run", week * 7 + day, 3600, 5000, HrZone::Z2));
        }
    }
    for day in 1..=7i64 {
        fatigued.push(workout("Run", day, 4800, 8000, HrZone::Z4));
    }
    let ctx_fatigued = TrainingContext::compute(&fatigued, &settings(), TODAY);
    let flags_fatigued = TrainingFlags::compute(&fatigued, &ctx_fatigued, &settings(),
        &dimensions, TODAY);
    let tsb = ctx_fatigued.tsb.expect("TSB expected");
    assert!(tsb < -2000, "TSB should be under -20, got {tsb}");
    assert!(flags_fatigued.high_fatigue, "high fatigue flag expected");

    // Peak form: moderate chronic load, then a light taper week.
    let mut peak: Vec<WorkoutSummary> = Vec::new();
    for week in 2..7i64 {
        for day in &[1i64, 3, 5] {
            peak.push(workout("Run", week * 7 + day, 3000, 4500, HrZone::Z2));
        }
    }
    for day in &[2i64, 5] {
        peak.push(workout("Run", *day, 1800, 2000, HrZone::Z1));
    }
    let ctx_peak = TrainingContext::compute(&peak, &settings(), TODAY);
    let flags_peak = TrainingFlags::compute(&peak, &ctx_peak, &settings(), &dimensions, TODAY);
    let tsb_peak = ctx_peak.tsb.expect("TSB expected");
    assert!(tsb_peak > 500 && tsb_peak < 1500, "TSB should be +5..+15, got {tsb_peak}");
    assert!(flags_peak.peak_form, "peak form flag expected");
}

#[test]
fn test_flags_long_session_gaps() {
    let dimensions = vec![long_run_dimension(), z2_ride_dimension()];

    // Only short runs (under the 90-minute ceiling) and short rides
    // (under the 60-minute ceiling) in the last three weeks.
    let workouts = vec![
        workout("Run", 2, 1800, 2500, HrZone::Z2),
        workout("Run", 5, 2700, 3500, HrZone::Z2),
        workout("Run", 10, 2400, 3000, HrZone::Z2),
        workout("Ride", 3, 1800, 2000, HrZone::Z2),
        workout("Ride", 7, 2700, 3000, HrZone::Z2),
    ];

    let context = TrainingContext::compute(&workouts, &UserSettings::default(), TODAY);
    let flags = TrainingFlags::compute(&workouts, &context, &UserSettings::default(),
        &dimensions, TODAY);

    assert!(flags.long_run_gap, "long run gap expected (no run at 90 min)");
    assert!(flags.long_ride_gap, "long ride gap expected (no ride at 60 min)");
}

#[test]
fn test_flags_intensity_patterns() {
    let dimensions: Vec<ProgressionDimension> = vec![];

    // Intensity heavy: 120 of 150 zoned minutes at Z3 and above.
    let intense = vec![
        workout("Run", 1, 3600, 6000, HrZone::Z3),
        workout("Run", 2, 3600, 7500, HrZone::Z4),
        workout("Ride", 3, 1800, 2500, HrZone::Z2),
    ];
    let ctx_intense = TrainingContext::compute(&intense, &UserSettings::default(), TODAY);
    let flags_intense = TrainingFlags::compute(&intense, &ctx_intense, &UserSettings::default(),
        &dimensions, TODAY);
    assert!(flags_intense.intensity_heavy, "intensity heavy flag expected");
    assert!(!flags_intense.polarized_training, "polarized flag not expected");

    // Polarized: 240 of 270 zoned minutes at Z1-Z2.
    let polarized = vec![
        workout("Ride", 1, 7200, 4000, HrZone::Z1),
        workout("Ride", 2, 7200, 5500, HrZone::Z2),
        workout("Run", 3, 1800, 5000, HrZone::Z4),
    ];
    let ctx_polarized = TrainingContext::compute(&polarized, &UserSettings::default(), TODAY);
    let flags_polarized = TrainingFlags::compute(&polarized, &ctx_polarized,
        &UserSettings::default(), &dimensions, TODAY);
    assert!(flags_polarized.polarized_training, "polarized training flag expected");
    assert!(!flags_polarized.intensity_heavy, "intensity heavy flag not expected");
}

#[test]
fn test_prioritized_list_order_and_content() {
    let flags = TrainingFlags {
        volume_spike: true,
        volume_drop: false,
        high_fatigue: true,
        peak_form: false,
        long_run_gap: true,
        long_ride_gap: false,
        intensity_heavy: false,
        polarized_training: true,
    };
    let list = flags.to_prioritized_list();
    let names: Vec<&str> = list.iter().map(|e| e.0.as_str()).collect();
    assert_eq!(names, vec!["high_fatigue", "volume_spike", "long_run_gap", "polarized_training"]);
    let priorities: Vec<u8> = list.iter().map(|e| e.1).collect();
    assert_eq!(priorities, vec![1, 2, 4, 5]);

    let lines = flags.to_string_list();
    assert_eq!(lines[0], "high_fatigue: TSB indicates accumulated fatigue (< -20)");
    assert_eq!(lines.len(), 4);
}
