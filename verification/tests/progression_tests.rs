//! Dimension and step-model tests: sequence and increment stepping,
//! ceilings, regulated durations, maintenance and regression timing, the
//! wire round trip, and the mutations.

use trainer_log::dimension::{ChangeType, DimensionType, LifecycleStatus, ProgressionDimension,
    ProgressionError};
use trainer_log::step::{DimensionValue, StepConfig};

const TODAY: i64 = 20000;

fn token(s: &str) -> DimensionValue {
    DimensionValue::Token(s.to_string())
}

fn make_sequence_dimension(current: &str, ceiling: &str) -> ProgressionDimension {
    ProgressionDimension {
        id: 1,
        name: "run_interval".to_string(),
        current_value: token(current),
        ceiling_value: token(ceiling),
        step_config: StepConfig::Sequence {
            sequence: vec![
                "4:1".to_string(),
                "5:1".to_string(),
                "6:1".to_string(),
                "8:1".to_string(),
                "10:1".to_string(),
                "continuous_20".to_string(),
                "continuous_30".to_string(),
                "continuous_45".to_string(),
            ],
        },
        status: LifecycleStatus::Building,
        last_change_at: Some(TODAY - 10),
        last_ceiling_touch_at: None,
        maintenance_cadence_days: 7,
        created_at: TODAY,
        updated_at: TODAY,
    }
}

fn make_increment_dimension(current: i32, ceiling: i32) -> ProgressionDimension {
    ProgressionDimension {
        id: 2,
        name: "long_run".to_string(),
        current_value: DimensionValue::Minutes(current),
        ceiling_value: DimensionValue::Minutes(ceiling),
        step_config: StepConfig::Increment { increment: 5, unit: "min".to_string() },
        status: LifecycleStatus::Building,
        last_change_at: Some(TODAY - 10),
        last_ceiling_touch_at: None,
        maintenance_cadence_days: 14,
        created_at: TODAY,
        updated_at: TODAY,
    }
}

fn make_regulated_dimension() -> ProgressionDimension {
    ProgressionDimension {
        id: 3,
        name: "z2_ride".to_string(),
        current_value: DimensionValue::Minutes(45),
        ceiling_value: DimensionValue::Minutes(60),
        step_config: StepConfig::Regulated { options: vec![45, 60], unit: "min".to_string() },
        status: LifecycleStatus::AtCeiling,
        last_change_at: None,
        last_ceiling_touch_at: None,
        maintenance_cadence_days: 10,
        created_at: TODAY,
        updated_at: TODAY,
    }
}

#[test]
fn test_sequence_progression() {
    let dim = make_sequence_dimension("4:1", "continuous_45");
    assert_eq!(dim.next_value(), Some(token("5:1")));
    assert!(!dim.is_at_ceiling());
}

#[test]
fn test_sequence_at_ceiling() {
    let dim = make_sequence_dimension("continuous_45", "continuous_45");
    assert!(dim.is_at_ceiling());
    assert_eq!(dim.next_value(), None);
}

#[test]
fn test_increment_progression() {
    let dim = make_increment_dimension(30, 90);
    assert_eq!(dim.next_value(), Some(DimensionValue::Minutes(35)));
    assert!(!dim.is_at_ceiling());
}

#[test]
fn test_increment_at_ceiling() {
    let dim = make_increment_dimension(90, 90);
    assert!(dim.is_at_ceiling());
    assert_eq!(dim.next_value(), None);
}

#[test]
fn test_regulated_no_progression() {
    let dim = make_regulated_dimension();
    assert_eq!(dim.dimension_type(), DimensionType::Regulated);
    assert_eq!(dim.next_value(), None);
}

#[test]
fn test_regulated_tsb_duration() {
    let dim = make_regulated_dimension();

    // Fresh (TSB at least 0): longest duration.
    assert_eq!(dim.get_regulated_duration(Some(500)), Some(60));

    // Light fatigue (TSB -10 to 0): shortest.
    assert_eq!(dim.get_regulated_duration(Some(-500)), Some(45));

    // Deeper fatigue (TSB under -10): recovery cap.
    assert_eq!(dim.get_regulated_duration(Some(-1500)), Some(40));
}

#[test]
fn test_maintenance_due() {
    let mut dim = make_sequence_dimension("continuous_45", "continuous_45");
    dim.status = LifecycleStatus::AtCeiling;
    dim.last_ceiling_touch_at = Some(TODAY - 10);

    // The cadence is 7 days; 10 days since the touch means due.
    assert!(dim.maintenance_due(TODAY));
}

#[test]
fn test_should_regress() {
    let mut dim = make_sequence_dimension("continuous_45", "continuous_45");
    dim.status = LifecycleStatus::AtCeiling;
    dim.last_ceiling_touch_at = Some(TODAY - 25);

    // 25 days since the touch is past the 21-day threshold.
    assert!(dim.should_regress(TODAY));
}

#[test]
fn test_never_touched_does_not_regress() {
    let mut dim = make_sequence_dimension("continuous_45", "continuous_45");
    dim.status = LifecycleStatus::AtCeiling;
    dim.last_ceiling_touch_at = None;
    assert!(!dim.should_regress(TODAY));
    // But maintenance is due: the ceiling was never exercised.
    assert!(dim.maintenance_due(TODAY));
}

#[test]
fn test_prev_value_sequence() {
    let dim = make_sequence_dimension("6:1", "continuous_45");
    assert_eq!(dim.prev_value(), Some(token("5:1")));
}

#[test]
fn test_prev_value_at_start() {
    let dim = make_sequence_dimension("4:1", "continuous_45");
    assert_eq!(dim.prev_value(), None);
}

#[test]
fn test_step_config_json_roundtrip() {
    let config = StepConfig::Sequence {
        sequence: vec!["4:1".to_string(), "5:1".to_string()],
    };
    let json = config.to_json();
    assert_eq!(json, r#"{"type":"sequence","sequence":["4:1","5:1"]}"#);
    let parsed = StepConfig::from_json(&json).unwrap();
    match parsed {
        StepConfig::Sequence { sequence } => {
            assert_eq!(sequence, vec!["4:1", "5:1"]);
        },
        _ => panic!("Wrong type"),
    }
}

#[test]
fn test_step_config_json_roundtrip_increment_and_regulated() {
    let inc = StepConfig::Increment { increment: 5, unit: "min".to_string() };
    let json = inc.to_json();
    assert_eq!(json, r#"{"type":"increment","increment":5,"unit":"min"}"#);
    assert_eq!(StepConfig::from_json(&json).unwrap(), inc);

    let reg = StepConfig::Regulated { options: vec![30, 45, 60], unit: "min".to_string() };
    let json2 = reg.to_json();
    assert_eq!(json2, r#"{"type":"regulated","options":[30,45,60],"unit":"min"}"#);
    assert_eq!(StepConfig::from_json(&json2).unwrap(), reg);
}

#[test]
fn test_step_config_wire_is_json() {
    // The wire form is plain JSON a generic parser reads back.
    let reg = StepConfig::Regulated { options: vec![30, 45, 60], unit: "min".to_string() };
    let value: serde_json::Value = serde_json::from_str(&reg.to_json()).unwrap();
    assert_eq!(value["type"].as_str(), Some("regulated"));
    assert_eq!(value["unit"].as_str(), Some("min"));
    assert_eq!(value["options"][2].as_i64(), Some(60));
}

#[test]
fn test_step_config_json_rejects_malformed() {
    assert!(StepConfig::from_json("").is_err());
    assert!(StepConfig::from_json("{}").is_err());
    assert!(StepConfig::from_json(r#"{"type":"sequence","sequence":["a""#).is_err());
    assert!(StepConfig::from_json(r#"{"type":"increment","increment":0,"unit":"min"}"#).is_err());
}

#[test]
fn test_apply_progression_reaches_ceiling() {
    let mut dim = make_increment_dimension(85, 90);
    let history = dim.apply_progression(TODAY, Some(7)).expect("progression expected");
    assert_eq!(dim.current_value, DimensionValue::Minutes(90));
    assert_eq!(dim.status, LifecycleStatus::AtCeiling);
    assert_eq!(dim.last_change_at, Some(TODAY));
    assert_eq!(dim.last_ceiling_touch_at, Some(TODAY));
    assert_eq!(history.previous_value, DimensionValue::Minutes(85));
    assert_eq!(history.new_value, DimensionValue::Minutes(90));
    assert_eq!(history.change_type, ChangeType::Progress);
    assert_eq!(history.trigger_workout_id, Some(7));
}

#[test]
fn test_apply_progression_at_ceiling_fails() {
    let mut dim = make_increment_dimension(90, 90);
    let before = dim.clone();
    let result = dim.apply_progression(TODAY, None);
    assert_eq!(result, Err(ProgressionError::NoNextValue));
    assert_eq!(dim, before);
}

#[test]
fn test_apply_regression_steps_back() {
    let mut dim = make_sequence_dimension("5:1", "continuous_45");
    dim.status = LifecycleStatus::AtCeiling;
    let history = dim.apply_regression(TODAY).expect("regression expected");
    assert_eq!(dim.current_value, token("4:1"));
    assert_eq!(dim.status, LifecycleStatus::Building);
    assert_eq!(history.change_type, ChangeType::Regress);
    assert_eq!(history.new_value, token("4:1"));
}

#[test]
fn test_apply_regression_at_minimum() {
    // "4:1" is the first sequence entry: there is no previous value, so
    // the mutation fails and the dimension is left exactly as it was.
    let mut dim = make_sequence_dimension("4:1", "continuous_45");
    let before = dim.clone();
    let result = dim.apply_regression(TODAY);
    assert!(result.is_err(), "regression at the floor must fail");
    assert_eq!(result.unwrap_err(), ProgressionError::NoPrevValue);
    assert_eq!(dim.current_value, before.current_value);
    assert_eq!(dim.status, before.status);
    assert_eq!(dim.last_change_at, before.last_change_at);
    assert_eq!(dim.last_ceiling_touch_at, before.last_ceiling_touch_at);
    let message = ProgressionError::NoPrevValue.message("run_interval");
    assert!(message.contains("No previous value"), "message: {message}");
}

#[test]
fn test_record_ceiling_touch() {
    let mut dim = make_increment_dimension(90, 90);
    dim.status = LifecycleStatus::AtCeiling;
    dim.last_ceiling_touch_at = Some(TODAY - 9);
    let history = dim.record_ceiling_touch(TODAY).expect("touch expected");
    assert_eq!(dim.last_ceiling_touch_at, Some(TODAY));
    assert_eq!(history.change_type, ChangeType::CeilingTouch);

    let mut building = make_increment_dimension(30, 90);
    let before = building.clone();
    assert_eq!(building.record_ceiling_touch(TODAY), Err(ProgressionError::NotAtCeiling));
    assert_eq!(building, before);
}

#[test]
fn test_update_ceiling_rederives_status() {
    let mut dim = make_increment_dimension(90, 90);
    dim.status = LifecycleStatus::AtCeiling;
    let history = dim.update_ceiling(DimensionValue::Minutes(120));
    assert_eq!(dim.ceiling_value, DimensionValue::Minutes(120));
    assert_eq!(dim.status, LifecycleStatus::Building);
    assert_eq!(history.change_type, ChangeType::CeilingUpdate);
    assert_eq!(history.previous_value, DimensionValue::Minutes(90));
}
