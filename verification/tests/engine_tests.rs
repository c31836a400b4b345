//! Decision-engine tests: the overlap rule, the regression gate,
//! adherence gates and the regulated bypass.

use trainer_log::adherence::AdherenceSummary;
use trainer_log::context::TrainingContext;
use trainer_log::dimension::{LifecycleStatus, ProgressionDimension};
use trainer_log::engine::{EngineDecision, ProgressionSummary};
use trainer_log::fixtures::mock_training_context;
use trainer_log::flags::TrainingFlags;
use trainer_log::step::{DimensionValue, StepConfig};

const TODAY: i64 = 20000;

fn no_flags() -> TrainingFlags {
    TrainingFlags {
        volume_spike: false,
        volume_drop: false,
        high_fatigue: false,
        peak_form: false,
        long_run_gap: false,
        long_ride_gap: false,
        intensity_heavy: false,
        polarized_training: false,
    }
}

fn calm_context() -> TrainingContext {
    let mut ctx = mock_training_context();
    ctx.tsb = Some(500);
    ctx
}

fn increment_dimension(name: &str, current: i32, ceiling: i32, changed_days_ago: i64)
    -> ProgressionDimension {
    ProgressionDimension {
        id: 1,
        name: name.to_string(),
        current_value: DimensionValue::Minutes(current),
        ceiling_value: DimensionValue::Minutes(ceiling),
        step_config: StepConfig::Increment { increment: 5, unit: "min".to_string() },
        status: LifecycleStatus::Building,
        last_change_at: Some(TODAY - changed_days_ago),
        last_ceiling_touch_at: None,
        maintenance_cadence_days: 14,
        created_at: TODAY,
        updated_at: TODAY,
    }
}

#[test]
fn test_progress_allowed_when_everything_is_calm() {
    let dims = vec![increment_dimension("long_run", 30, 90, 10)];
    let summary = ProgressionSummary::compute(&dims, &calm_context(), &no_flags(),
        AdherenceSummary::default(), TODAY);
    assert_eq!(summary.dimensions[0].engine_decision, EngineDecision::ProgressAllowed);
    assert_eq!(summary.dimensions[0].reason, "All criteria met");
    assert_eq!(summary.dimensions[0].next_value, Some(DimensionValue::Minutes(35)));
}

#[test]
fn test_overlap_rule_holds_other_dimension() {
    // Dimension A progressed 3 days ago; B is otherwise eligible, so B
    // is held for now, with the 7-day threshold in the rationale.
    let a = increment_dimension("long_run", 35, 90, 3);
    let b = increment_dimension("run_interval", 20, 45, 10);
    let dims = vec![a, b];
    let summary = ProgressionSummary::compute(&dims, &calm_context(), &no_flags(),
        AdherenceSummary::default(), TODAY);

    assert_eq!(summary.last_progression_dimension, Some("long_run".to_string()));
    assert_eq!(summary.days_since_any_progression, 3);

    let b_status = &summary.dimensions[1];
    assert_eq!(b_status.engine_decision, EngineDecision::HoldForNow);
    assert!(b_status.reason.contains("need 7"), "reason: {}", b_status.reason);
    assert!(b_status.reason.contains("3 days ago"), "reason: {}", b_status.reason);

    // A itself is not overlap-blocked, but changed 3 days ago, so its
    // own criteria hold it.
    let a_status = &summary.dimensions[0];
    assert_eq!(a_status.engine_decision, EngineDecision::Hold);
    assert!(a_status.reason.contains("3 days since last change"), "reason: {}", a_status.reason);
}

#[test]
fn test_regression_gate_old_touch_regresses() {
    // The ceiling was last touched 25 days ago: regress.
    let mut dim = increment_dimension("long_run", 90, 90, 30);
    dim.status = LifecycleStatus::AtCeiling;
    dim.last_ceiling_touch_at = Some(TODAY - 25);
    let dims = vec![dim];
    let summary = ProgressionSummary::compute(&dims, &calm_context(), &no_flags(),
        AdherenceSummary::default(), TODAY);
    assert_eq!(summary.dimensions[0].engine_decision, EngineDecision::Regress);
    assert!(summary.dimensions[0].reason.contains("25 days"));
}

#[test]
fn test_regression_gate_recent_touch_never_regresses() {
    // The ceiling was touched 5 days ago: at ceiling (or maintenance),
    // never a regression.
    let mut dim = increment_dimension("long_run", 90, 90, 30);
    dim.status = LifecycleStatus::AtCeiling;
    dim.last_ceiling_touch_at = Some(TODAY - 5);
    let dims = vec![dim];
    let summary = ProgressionSummary::compute(&dims, &calm_context(), &no_flags(),
        AdherenceSummary::default(), TODAY);
    let decision = summary.dimensions[0].engine_decision;
    assert!(
        decision == EngineDecision::AtCeiling || decision == EngineDecision::MaintenanceDue,
        "decision: {:?}",
        decision
    );
    assert_ne!(decision, EngineDecision::Regress);
}

#[test]
fn test_unstable_week_holds() {
    let dims = vec![increment_dimension("long_run", 30, 90, 10)];
    let adherence = AdherenceSummary::compute(6, 3, 1, 1, 0);  // 50%
    let summary = ProgressionSummary::compute(&dims, &calm_context(), &no_flags(), adherence,
        TODAY);
    assert_eq!(summary.dimensions[0].engine_decision, EngineDecision::HoldDueToUnstableWeek);
    assert!(summary.dimensions[0].reason.contains("50% adherence"));
}

#[test]
fn test_missed_key_session_holds_key_dimension() {
    let dims = vec![
        increment_dimension("long_run", 30, 90, 10),
        increment_dimension("tempo_ride", 30, 90, 10),
    ];
    // 5 of 6 sessions (83%), key session missed.
    let adherence = AdherenceSummary::compute(6, 5, 1, 0, 0);
    let summary = ProgressionSummary::compute(&dims, &calm_context(), &no_flags(), adherence,
        TODAY);
    assert_eq!(
        summary.dimensions[0].engine_decision,
        EngineDecision::HoldDueToMissedKeySession
    );
    // The non-key dimension is not held for the key session, but the
    // week is not fully stable either.
    assert_eq!(summary.dimensions[1].engine_decision, EngineDecision::HoldForNow);
}

#[test]
fn test_regulated_dimension_bypasses_gates() {
    let dim = ProgressionDimension {
        id: 3,
        name: "z2_ride".to_string(),
        current_value: DimensionValue::Minutes(45),
        ceiling_value: DimensionValue::Minutes(60),
        step_config: StepConfig::Regulated { options: vec![30, 45, 60], unit: "min".to_string() },
        status: LifecycleStatus::Building,
        last_change_at: None,
        last_ceiling_touch_at: None,
        maintenance_cadence_days: 10,
        created_at: TODAY,
        updated_at: TODAY,
    };
    let dims = vec![dim];
    // Even with a dreadful week, a regulated dimension just reports its
    // TSB-selected duration.
    let adherence = AdherenceSummary::compute(6, 1, 1, 0, 3);
    let mut ctx = mock_training_context();
    ctx.tsb = Some(-1500);
    let summary = ProgressionSummary::compute(&dims, &ctx, &no_flags(), adherence, TODAY);
    let status = &summary.dimensions[0];
    assert_eq!(status.engine_decision, EngineDecision::Regulated);
    assert_eq!(status.status, LifecycleStatus::AtCeiling);
    assert_eq!(status.regulated_duration, Some(30));
    assert!(status.reason.contains("fatigued"), "reason: {}", status.reason);
    assert_eq!(status.next_value, None);
}

#[test]
fn test_low_adherence_run_regresses_with_prior_value() {
    let dims = vec![increment_dimension("long_run", 35, 90, 10)];
    let adherence = AdherenceSummary::compute(6, 6, 1, 1, 2);
    let summary = ProgressionSummary::compute(&dims, &calm_context(), &no_flags(), adherence,
        TODAY);
    assert_eq!(summary.dimensions[0].engine_decision, EngineDecision::Regress);
    assert!(summary.dimensions[0].reason.contains("2 consecutive low-adherence weeks"));
}

#[test]
fn test_tsb_floor_varies_by_dimension() {
    // TSB -12 is below the -10 floor of an ordinary dimension but above
    // the -15 floor of the long run.
    let mut ctx = mock_training_context();
    ctx.tsb = Some(-1200);
    let dims = vec![
        increment_dimension("long_run", 30, 90, 10),
        increment_dimension("tempo_ride", 30, 90, 10),
    ];
    let summary = ProgressionSummary::compute(&dims, &ctx, &no_flags(),
        AdherenceSummary::default(), TODAY);
    assert_eq!(summary.dimensions[0].engine_decision, EngineDecision::ProgressAllowed);
    assert_eq!(summary.dimensions[1].engine_decision, EngineDecision::Hold);
    assert!(
        summary.dimensions[1].reason.contains("TSB too low (-12.0, need > -10.0)"),
        "reason: {}",
        summary.dimensions[1].reason
    );
}
