//! Callback-request parsing and response building, plus the adherence
//! derivation and the mock factories.

use trainer_log::adherence::{compute_adherence, consecutive_low_weeks, AdherenceSummary};
use trainer_log::callback::{build_error_response, build_success_response,
    extract_code_from_request, extract_error_from_request};
use trainer_log::fixtures::{mock_training_context, mock_user_settings, mock_workout_summary};

#[test]
fn test_extract_code_from_callback_request() {
    let request = "GET /callback?code=abc123&scope=read HTTP/1.1\r\nHost: localhost\r\n\r\n";
    assert_eq!(extract_code_from_request(request), Some("abc123".to_string()));

    // No code parameter.
    let no_code = "GET /callback?error=denied HTTP/1.1\r\n";
    assert_eq!(extract_code_from_request(no_code), None);

    // Not the callback path at all.
    let other = "GET /health HTTP/1.1\r\n";
    assert_eq!(extract_code_from_request(other), None);

    assert_eq!(extract_code_from_request(""), None);
}

#[test]
fn test_extract_error_from_callback_request() {
    let request = "GET /callback?error=access%20denied HTTP/1.1\r\n";
    assert_eq!(extract_error_from_request(request), Some("access denied".to_string()));

    let ok_request = "GET /callback?code=abc123 HTTP/1.1\r\n";
    assert_eq!(extract_error_from_request(ok_request), None);
}

#[test]
fn test_build_success_response_shape() {
    let response = build_success_response();
    assert!(response.starts_with("HTTP/1.1 200 OK\r\n"));
    assert!(response.contains("Content-Type: text/html"));
    assert!(response.contains("Successfully Connected to Strava!"));
    // The declared length matches the body after the blank line.
    let body = response.split("\r\n\r\n").nth(1).unwrap();
    assert!(response.contains(&format!("Content-Length: {}", body.len())));
}

#[test]
fn test_build_error_response_shape() {
    let response = build_error_response("access denied");
    assert!(response.starts_with("HTTP/1.1 400 Bad Request\r\n"));
    assert!(response.contains("Error: access denied"));
    let body = response.split("\r\n\r\n").nth(1).unwrap();
    assert!(response.contains(&format!("Content-Length: {}", body.len())));
}

#[test]
fn test_compute_adherence_counts_week() {
    let today: i64 = 20000;
    let settings = mock_user_settings();
    let workouts = vec![
        // Four workouts this week, one of them a 60-minute run (key).
        mock_workout_summary("Run", 1, today),
        mock_workout_summary("Ride", 2, today),
        mock_workout_summary("Run", 4, today),
        mock_workout_summary("Ride", 6, today),
        // An old workout outside the week.
        mock_workout_summary("Run", 10, today),
    ];
    let summary = compute_adherence(&workouts, &settings, 0, today);
    assert_eq!(summary.total_expected, 6);
    assert_eq!(summary.total_completed, 4);
    assert_eq!(summary.key_expected, 1);
    assert_eq!(summary.key_completed, 2);
    // 4 of 6: 66.67%, an unstable week.
    assert_eq!(summary.adherence_pct, 6666);
    assert!(summary.is_unstable());
    assert!(!summary.week_stable);
    assert_eq!(summary.missed_workouts, 2);
}

#[test]
fn test_consecutive_low_weeks_counts_run() {
    let today: i64 = 20000;
    let settings = mock_user_settings();  // six sessions expected per week
    let mut workouts = Vec::new();
    // Weeks one and two before today: two sessions each (33%, low).
    for day in &[8i64, 11, 15, 18] {
        workouts.push(mock_workout_summary("Run", *day, today));
    }
    // Week three: five sessions (83%, not low).
    for day in &[22i64, 23, 24, 26, 27] {
        workouts.push(mock_workout_summary("Ride", *day, today));
    }
    assert_eq!(consecutive_low_weeks(&workouts, &settings, today), 2);

    // A steady history has no low run at all.
    let mut steady = Vec::new();
    for week in 1..6i64 {
        for day in &[0i64, 1, 2, 4, 5] {
            steady.push(mock_workout_summary("Run", week * 7 + day, today));
        }
    }
    assert_eq!(consecutive_low_weeks(&steady, &settings, today), 0);
}

#[test]
fn test_adherence_summary_thresholds() {
    let good = AdherenceSummary::compute(6, 6, 1, 1, 0);
    assert_eq!(good.adherence_pct, 10000);
    assert!(good.week_stable);
    assert!(!good.is_unstable());
    assert!(!good.should_consider_regression());

    let low_weeks = AdherenceSummary::compute(6, 6, 1, 1, 2);
    assert!(low_weeks.should_consider_regression());

    // Nothing expected counts as fully adherent.
    let none_expected = AdherenceSummary::compute(0, 0, 0, 0, 0);
    assert_eq!(none_expected.adherence_pct, 10000);
}

#[test]
fn test_mock_factories_create_valid_data() {
    let settings = mock_user_settings();
    assert_eq!(settings.max_hr, Some(190));
    assert_eq!(settings.lthr, Some(170));

    let workout = mock_workout_summary("Run", 1, 20000);
    assert_eq!(workout.activity_type, "Run");
    assert!(workout.duration_seconds.is_some());

    let context = mock_training_context();
    assert!(context.atl.is_some());
    assert!(context.ctl.is_some());
}
