//! Per-workout metric tests: zones, threshold fallback, pace, power and
//! stress score. Fractional metrics are scaled integers (hundredths;
//! efficiency in thousandths).

use trainer_log::metrics::WorkoutMetrics;
use trainer_log::settings::UserSettings;
use trainer_log::zones::HrZone;

fn settings(max_hr: Option<i64>, lthr: Option<i64>, ftp: Option<i64>) -> UserSettings {
    UserSettings { max_hr, lthr, ftp, training_days_per_week: 6 }
}

#[test]
fn test_hr_zones() {
    let max_hr: i64 = 190;
    assert_eq!(HrZone::from_hr(100, max_hr), HrZone::Z1); // 53%
    assert_eq!(HrZone::from_hr(120, max_hr), HrZone::Z2); // 63%
    assert_eq!(HrZone::from_hr(140, max_hr), HrZone::Z3); // 74%
    assert_eq!(HrZone::from_hr(165, max_hr), HrZone::Z4); // 87%
    assert_eq!(HrZone::from_hr(180, max_hr), HrZone::Z5); // 95%
}

#[test]
fn test_hr_zone_boundary_is_exact() {
    // 114 of 190 is exactly 60.0%: Z2, not Z1.
    assert_eq!(HrZone::from_hr(114, 190), HrZone::Z2);
    // One beat below the boundary stays Z1.
    assert_eq!(HrZone::from_hr(113, 190), HrZone::Z1);
    // The 90% boundary: 171 of 190 is exactly 90.0%: Z5.
    assert_eq!(HrZone::from_hr(171, 190), HrZone::Z5);
    assert_eq!(HrZone::from_hr(170, 190), HrZone::Z4);
}

#[test]
fn test_running_metrics() {
    let s = settings(Some(190), Some(170), None);
    let metrics = WorkoutMetrics::compute(
        "Run",
        Some(2640),      // 44 minutes
        Some(6000),      // 6 km
        Some(139),       // avg HR
        None,            // no watts
        &s,
    );

    // Pace should be ~7.33 min/km = ~733 centi.
    let pace = metrics.pace_min_per_km.expect("pace expected for a run");
    assert!((pace - 733).abs() < 10, "pace {pace}");

    // Should have a stress score.
    assert!(metrics.rtss.is_some());

    // Should be Z3 (139/190 = 73%).
    assert_eq!(metrics.hr_zone, Some(HrZone::Z3));

    // No cycling metrics.
    assert!(metrics.kj.is_none());
    assert!(metrics.speed_kmh.is_none());
}

#[test]
fn test_cycling_metrics() {
    let s = settings(Some(190), Some(170), Some(250));
    let metrics = WorkoutMetrics::compute(
        "Ride",
        Some(2700),      // 45 minutes
        Some(20600),     // 20.6 km
        Some(126),       // avg HR
        Some(180),       // 180 watts
        &s,
    );

    // kJ should be 180 * 2700 / 1000 = 486 = 48600 centi.
    let kj = metrics.kj.expect("kJ expected for a powered ride");
    assert!((kj - 48600).abs() < 100, "kj {kj}");

    // Speed should be ~27.5 km/h.
    let speed = metrics.speed_kmh.expect("speed expected for a ride");
    assert!((speed - 2746).abs() < 20, "speed {speed}");

    // Efficiency: watts/hr = 180/126 = 1.43, in thousandths.
    let eff = metrics.efficiency.expect("efficiency expected");
    assert!((eff - 1428).abs() < 100, "efficiency {eff}");

    // No running metrics.
    assert!(metrics.pace_min_per_km.is_none());
}

#[test]
fn test_lthr_fallback() {
    let s = settings(Some(190), None, None);
    // Should fall back to 93% of max: 190 * 0.93 = 176.7, truncated to 176.
    assert_eq!(s.effective_lthr(), Some(176));
}

#[test]
fn test_stress_score_formula() {
    // duration 2640 s, HR 139, threshold 170:
    // 44 min * (139/170)^2 / 60 * 100 = 49.02, i.e. 4902 in hundredths.
    let s = settings(Some(190), Some(170), None);
    let metrics = WorkoutMetrics::compute("Run", Some(2640), Some(6000), Some(139), None, &s);
    let rtss = metrics.rtss.expect("stress score expected");
    assert!((rtss - 4902).abs() <= 50, "rtss {rtss}");
}

#[test]
fn test_metric_calculator_idempotent() {
    let s = settings(Some(190), Some(170), Some(250));
    let a = WorkoutMetrics::compute("Ride", Some(2700), Some(20600), Some(126), Some(180), &s);
    let b = WorkoutMetrics::compute("Ride", Some(2700), Some(20600), Some(126), Some(180), &s);
    assert_eq!(a, b);
}

#[test]
fn test_absent_inputs_yield_absent_fields() {
    let s = settings(None, None, None);
    let metrics = WorkoutMetrics::compute("Run", None, None, None, None, &s);
    assert!(metrics.pace_min_per_km.is_none());
    assert!(metrics.speed_kmh.is_none());
    assert!(metrics.kj.is_none());
    assert!(metrics.rtss.is_none());
    assert!(metrics.efficiency.is_none());
    assert!(metrics.cardiac_cost.is_none());
    assert!(metrics.hr_zone.is_none());
}
