//! Schedule context, zone names and summary lookup.

use trainer_log::adherence::AdherenceSummary;
use trainer_log::dimension::{LifecycleStatus, ProgressionDimension};
use trainer_log::engine::ProgressionSummary;
use trainer_log::fixtures::mock_training_context;
use trainer_log::flags::TrainingFlags;
use trainer_log::schedule::ScheduleContext;
use trainer_log::step::{DimensionValue, StepConfig};
use trainer_log::zones::HrZone;

#[test]
fn test_schedule_context_names_tomorrow() {
    // Friday: tomorrow is the Saturday long run.
    let friday = ScheduleContext::build(4);
    assert_eq!(friday.today_is, "Friday");
    assert_eq!(friday.tomorrow_is, "Saturday");
    assert_eq!(friday.tomorrow_expected_type, "run_long");

    // Sunday wraps around to Monday's ride.
    let sunday = ScheduleContext::build(6);
    assert_eq!(sunday.tomorrow_is, "Monday");
    assert_eq!(sunday.tomorrow_expected_type, "ride");

    assert_eq!(friday.weekly_pattern.sunday, "rest");
}

#[test]
fn test_zone_names() {
    assert_eq!(HrZone::Z1.as_str(), "Z1");
    assert_eq!(HrZone::Z5.as_str(), "Z5");
}

#[test]
fn test_summary_get_dimension_by_name() {
    let today: i64 = 20000;
    let dim = ProgressionDimension {
        id: 1,
        name: "long_run".to_string(),
        current_value: DimensionValue::Minutes(30),
        ceiling_value: DimensionValue::Minutes(90),
        step_config: StepConfig::Increment { increment: 5, unit: "min".to_string() },
        status: LifecycleStatus::Building,
        last_change_at: Some(today - 10),
        last_ceiling_touch_at: None,
        maintenance_cadence_days: 14,
        created_at: today,
        updated_at: today,
    };
    let dims = vec![dim];
    let flags = TrainingFlags {
        volume_spike: false,
        volume_drop: false,
        high_fatigue: false,
        peak_form: false,
        long_run_gap: false,
        long_ride_gap: false,
        intensity_heavy: false,
        polarized_training: false,
    };
    let summary = ProgressionSummary::compute(&dims, &mock_training_context(), &flags,
        AdherenceSummary::default(), today);
    assert!(summary.get_dimension("long_run").is_some());
    assert_eq!(summary.get_dimension("long_run").unwrap().name, "long_run");
    assert!(summary.get_dimension("z2_ride").is_none());
}
