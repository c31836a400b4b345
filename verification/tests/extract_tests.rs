//! Extraction of JSON payloads from narrative answers.

use trainer_log::extract::extract_json;
use trainer_log::report::{EyesOnCard, FlagPriority, HrEfficiencyCard, LlmError, PerformanceCard,
    TomorrowCard, TrainingStatusCard, WorkoutAnalysis, WorkoutAnalysisV4};

#[test]
fn test_extract_json_direct() {
    let input = r#"{"summary": "test", "risk_flags": []}"#;
    let result = extract_json(input).unwrap();
    assert!(result.contains("summary"));
}

#[test]
fn test_extract_json_code_block() {
    let input = r#"Here's the analysis:

```json
{"summary": "Good workout", "risk_flags": []}
```

Hope that helps!"#;
    let result = extract_json(input).unwrap();
    assert!(result.contains("Good workout"));
}

#[test]
fn test_extract_json_fallback() {
    let input = r#"The analysis is {"summary": "test"} as shown."#;
    let result = extract_json(input).unwrap();
    assert!(result.contains("summary"));
}

#[test]
fn test_extract_json_no_json_found() {
    let input = "This is just plain text with no JSON structure whatsoever.";
    let result = extract_json(input);
    assert!(result.is_err(), "Should fail when no JSON found");
}

#[test]
fn test_extract_json_with_trailing_comma() {
    // JSON with a trailing comma (a common mistake): extraction works,
    // parsing then fails.
    let input = r#"{
      "summary": "Good workout",
      "risk_flags": [],
    }"#;

    let extracted = extract_json(input);
    assert!(extracted.is_ok());

    let parse_result: Result<serde_json::Value, _> = serde_json::from_str(&extracted.unwrap());
    assert!(parse_result.is_err(), "Trailing comma should cause parse error");
}

#[test]
fn test_extract_json_multiline_with_comments() {
    // JSON with // comments is extracted verbatim but does not parse.
    let input = r#"Here's the analysis:

```json
{
  "performance": {  // Performance metrics
    "metric_name": "pace",
    "comparison_date": "2025-12-10",
    "comparison_value": "7:20/km",
    "today_value": "7:22/km",
    "delta": "+2 sec/km",
    "insight": "Steady pace"
  }
}
```"#;

    let extracted = extract_json(input);
    assert!(extracted.is_ok());

    let json = extracted.unwrap();
    assert!(json.contains("//"), "Comments should be in extracted JSON");

    let parse_result: Result<serde_json::Value, _> = serde_json::from_str(&json);
    assert!(parse_result.is_err(), "JSON with comments should fail to parse");
}

#[test]
fn test_extract_json_incomplete_json() {
    // Incomplete JSON (missing closing brace) may be extracted; parsing
    // then fails.
    let input = r#"{"summary": "test", "risk_flags": ["#;

    let extracted = extract_json(input);
    if let Ok(json) = extracted {
        let parse_result: Result<serde_json::Value, _> = serde_json::from_str(&json);
        assert!(parse_result.is_err(), "Incomplete JSON should fail to parse");
    }
}

#[test]
fn test_extract_json_plain_code_block_skips_language_line() {
    let input = "Sure:\n```\ntext\n{\"a\": 1}\n```\n";
    let result = extract_json(input).unwrap();
    assert_eq!(result, "text\n{\"a\": 1}");
}

#[test]
fn test_llm_error_messages() {
    assert_eq!(LlmError::MissingApiKey.message(), "API key not configured");
    assert_eq!(LlmError::Parse("bad".to_string()).message(), "Parse error: bad");
}

#[test]
fn test_v4_to_legacy_conversion() {
    let v4 = WorkoutAnalysisV4 {
        performance: PerformanceCard {
            metric_name: "pace".to_string(),
            comparison_date: "2025-12-09".to_string(),
            comparison_value: "7:20/km".to_string(),
            today_value: "7:22/km".to_string(),
            delta: "+2 sec/km".to_string(),
            insight: "Pace holding steady around 7:20/km across last 3 runs.".to_string(),
        },
        hr_efficiency: HrEfficiencyCard {
            avg_hr: 136,
            hr_zone: "Z2".to_string(),
            hr_pct_max: 72,
            hr_assessment: "HR firmly in Z2 throughout".to_string(),
            efficiency_trend: None,
        },
        training_status: TrainingStatusCard {
            tsb_value: -1200,
            tsb_band: "moderate_fatigue".to_string(),
            tsb_assessment: "Improving from -18".to_string(),
            top_flags: vec!["volume_spike".to_string()],
            adherence_note: "6/6 sessions - perfect week".to_string(),
            progression_state: "All on hold until load stabilizes".to_string(),
        },
        tomorrow: TomorrowCard {
            activity_type: "Ride".to_string(),
            duration_min: 40,
            duration_label: "SHORT".to_string(),
            intensity: "Z2".to_string(),
            goal: "load_management".to_string(),
            rationale: "TSB -12 + volume spike = keep it short and easy".to_string(),
            confidence: "high".to_string(),
        },
        eyes_on: Some(EyesOnCard {
            priorities: vec![FlagPriority {
                flag: "long_run_gap".to_string(),
                current_value: Some("21 days since 30+ min".to_string()),
                threshold: "Weekly long run".to_string(),
                action: "Hit Saturday's long session".to_string(),
                why_it_matters: "Extended gaps reduce aerobic durability".to_string(),
            }],
        }),
    };

    let legacy = WorkoutAnalysis::from_v4(&v4);

    // The summary combines the performance insight and the HR assessment.
    assert!(legacy.summary.contains("Pace holding steady"));
    assert!(legacy.summary.contains("HR firmly in Z2"));

    // The recommendation formats activity, duration, intensity, rationale.
    assert!(legacy.tomorrow_recommendation.contains("Ride"));
    assert!(legacy.tomorrow_recommendation.contains("40 min"));
    assert!(legacy.tomorrow_recommendation.contains("Z2"));
    assert!(legacy.tomorrow_recommendation.contains("TSB -12"));

    // The flags are extracted from the actionable card.
    assert_eq!(legacy.risk_flags.len(), 1);
    assert!(legacy.risk_flags[0].contains("long_run_gap"));
    assert!(legacy.risk_flags[0].contains("Hit Saturday's long session"));
}
