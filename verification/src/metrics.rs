//! Per-workout derived metrics: pace, speed, energy, stress score,
//! efficiency, cardiac cost and heart-rate zone.
//!
//! All fractional results are scaled integers: hundredths ("centi") unless a
//! field says otherwise. Absent inputs yield absent fields, never zero.

use vstd::prelude::*;
use crate::settings::{UserSettings, MAX_HEART_RATE};
use crate::text::{is_ride, is_run, spec_is_ride, spec_is_run};
use crate::zones::HrZone;

verus! {

/// Upper bound on a workout duration in seconds (about 115 days); keeps the
/// stress-score product inside `i64`.
pub const MAX_DURATION_SECONDS: i64 = 10_000_000;

/// Upper bound on a workout distance in metres (100,000 km).
pub const MAX_DISTANCE_METERS: i64 = 100_000_000;

/// Upper bound on an average power in watts.
pub const MAX_WATTS: i64 = 100_000;

/// Raw inputs of one workout are in range for the metric formulas.
pub open spec fn inputs_wf(
    duration_seconds: Option<i64>,
    distance_meters: Option<i64>,
    average_hr: Option<i64>,
    average_watts: Option<i64>,
) -> bool {
    &&& (duration_seconds matches Some(d) ==> 0 <= d <= MAX_DURATION_SECONDS)
    &&& (distance_meters matches Some(d) ==> 0 <= d <= MAX_DISTANCE_METERS)
    &&& (average_hr matches Some(h) ==> 0 <= h <= MAX_HEART_RATE)
    &&& (average_watts matches Some(w) ==> 0 <= w <= MAX_WATTS)
}

/// Derived metrics of a single workout.
#[derive(Debug, Clone, PartialEq)]
pub struct WorkoutMetrics {
    /// Running pace in hundredths of a minute per kilometre (runs only).
    pub pace_min_per_km: Option<i64>,
    /// Cycling speed in hundredths of a km/h (rides only; power-less fallback).
    pub speed_kmh: Option<i64>,
    /// Cycling work in hundredths of a kilojoule (rides only).
    pub kj: Option<i64>,
    /// Relative training stress score, in hundredths (HR-based).
    pub rtss: Option<i64>,
    /// Efficiency in thousandths: pace/HR for runs (lower is better),
    /// watts/HR for rides (higher is better).
    pub efficiency: Option<i64>,
    /// Cardiac cost in hundredths of a beat: average HR times minutes.
    pub cardiac_cost: Option<i64>,
    /// Heart-rate zone of the average heart rate.
    pub hr_zone: Option<HrZone>,
}

/// Pace in centi-min/km: minutes divided by kilometres, for runs with a
/// positive distance.
pub open spec fn spec_pace(
    run: bool,
    duration_seconds: Option<i64>,
    distance_meters: Option<i64>,
) -> Option<i64> {
    match (duration_seconds, distance_meters) {
        (Some(dur), Some(dist)) => if run && dist > 0 {
            Some((dur * 5000 / (3 * (dist as int))) as i64)
        } else {
            None
        },
        _ => None,
    }
}

/// Speed in centi-km/h: kilometres divided by hours, for rides with a
/// positive duration.
pub open spec fn spec_speed(
    ride: bool,
    duration_seconds: Option<i64>,
    distance_meters: Option<i64>,
) -> Option<i64> {
    match (distance_meters, duration_seconds) {
        (Some(dist), Some(dur)) => if ride && dur > 0 {
            Some((dist * 360 / (dur as int)) as i64)
        } else {
            None
        },
        _ => None,
    }
}

/// Work in centi-kJ: watts times seconds over 1000, for rides.
pub open spec fn spec_kj(
    ride: bool,
    duration_seconds: Option<i64>,
    average_watts: Option<i64>,
) -> Option<i64> {
    match (average_watts, duration_seconds) {
        (Some(w), Some(dur)) => if ride {
            Some((w * (dur as int) / 10) as i64)
        } else {
            None
        },
        _ => None,
    }
}

/// Stress score in hundredths: `duration_min * (hr / threshold)^2 / 60 * 100`,
/// reduced to the exact integer form `dur_s * hr^2 * 25 / (9 * threshold^2)`.
pub open spec fn spec_rtss(
    duration_seconds: Option<i64>,
    average_hr: Option<i64>,
    threshold_hr: Option<i64>,
) -> Option<i64> {
    match (duration_seconds, average_hr, threshold_hr) {
        (Some(dur), Some(hr), Some(lthr)) => if lthr > 0 {
            Some((dur * hr * hr * 25 / (9 * (lthr as int) * (lthr as int))) as i64)
        } else {
            None
        },
        _ => None,
    }
}

/// Efficiency in thousandths: pace/HR for runs, watts/HR for rides, absent
/// otherwise or when the heart rate is missing or zero.
pub open spec fn spec_efficiency(
    run: bool,
    ride: bool,
    average_hr: Option<i64>,
    pace_centi: Option<i64>,
    average_watts: Option<i64>,
) -> Option<i64> {
    match average_hr {
        Some(hr) => if run && hr > 0 {
            match pace_centi {
                Some(p) => Some((p * 10 / (hr as int)) as i64),
                None => None,
            }
        } else if ride && hr > 0 {
            match average_watts {
                Some(w) => Some((w * 1000 / (hr as int)) as i64),
                None => None,
            }
        } else {
            None
        },
        None => None,
    }
}

/// Cardiac cost in hundredths of a beat: HR times minutes.
pub open spec fn spec_cardiac_cost(
    duration_seconds: Option<i64>,
    average_hr: Option<i64>,
) -> Option<i64> {
    match (average_hr, duration_seconds) {
        (Some(hr), Some(dur)) => Some((hr * (dur as int) * 5 / 3) as i64),
        _ => None,
    }
}

/// Zone of the average heart rate, absent if either input is missing.
pub open spec fn spec_zone(average_hr: Option<i64>, max_hr: Option<i64>) -> Option<HrZone> {
    match (average_hr, max_hr) {
        (Some(hr), Some(max)) => Some(HrZone::spec_from_hr(hr as int, max as int)),
        _ => None,
    }
}

impl WorkoutMetrics {
    /// All metrics of one workout, as a function of its raw inputs and the
    /// user's settings.
    pub open spec fn spec_compute(
        activity_type: Seq<char>,
        duration_seconds: Option<i64>,
        distance_meters: Option<i64>,
        average_hr: Option<i64>,
        average_watts: Option<i64>,
        settings: UserSettings,
    ) -> WorkoutMetrics {
        let run = spec_is_run(activity_type);
        let ride = spec_is_ride(activity_type);
        let pace = spec_pace(run, duration_seconds, distance_meters);
        WorkoutMetrics {
            pace_min_per_km: pace,
            speed_kmh: spec_speed(ride, duration_seconds, distance_meters),
            kj: spec_kj(ride, duration_seconds, average_watts),
            rtss: spec_rtss(duration_seconds, average_hr, settings.spec_effective_lthr()),
            efficiency: spec_efficiency(run, ride, average_hr, pace, average_watts),
            cardiac_cost: spec_cardiac_cost(duration_seconds, average_hr),
            hr_zone: spec_zone(average_hr, settings.max_hr),
        }
    }

    /// Compute all per-workout metrics from raw workout data.
    pub fn compute(
        activity_type: &str,
        duration_seconds: Option<i64>,
        distance_meters: Option<i64>,
        average_hr: Option<i64>,
        average_watts: Option<i64>,
        settings: &UserSettings,
    ) -> (r: WorkoutMetrics)
        requires
            settings.wf(),
            inputs_wf(duration_seconds, distance_meters, average_hr, average_watts),
        ensures
            r == Self::spec_compute(
                activity_type@,
                duration_seconds,
                distance_meters,
                average_hr,
                average_watts,
                *settings,
            ),
    {
        let run = is_run(activity_type);
        let ride = is_ride(activity_type);

        let pace_min_per_km: Option<i64> = match (duration_seconds, distance_meters) {
            (Some(dur), Some(dist)) => if run && dist > 0 {
                Some(dur * 5000 / (3 * dist))
            } else {
                None
            },
            _ => None,
        };

        let speed_kmh: Option<i64> = match (distance_meters, duration_seconds) {
            (Some(dist), Some(dur)) => if ride && dur > 0 {
                Some(dist * 360 / dur)
            } else {
                None
            },
            _ => None,
        };

        let kj: Option<i64> = match (average_watts, duration_seconds) {
            (Some(w), Some(dur)) => if ride {
                proof {
                    assert(w * dur <= MAX_WATTS * MAX_DURATION_SECONDS) by (nonlinear_arith)
                        requires 0 <= w <= MAX_WATTS, 0 <= dur <= MAX_DURATION_SECONDS;
                }
                Some(w * dur / 10)
            } else {
                None
            },
            _ => None,
        };

        let threshold = settings.effective_lthr();
        let rtss: Option<i64> = match (duration_seconds, average_hr, threshold) {
            (Some(dur), Some(hr), Some(lthr)) => if lthr > 0 {
                proof {
                    let a = (dur as int) * (hr as int);
                    assert(0 <= a <= 10_000_000_000) by (nonlinear_arith)
                        requires 0 <= dur <= 10_000_000, 0 <= hr <= 1000,
                            a == (dur as int) * (hr as int);
                    assert(0 <= a * (hr as int) <= 10_000_000_000_000) by (nonlinear_arith)
                        requires 0 <= a <= 10_000_000_000, 0 <= hr <= 1000;
                    let b = 9 * (lthr as int);
                    assert(0 < b * (lthr as int) <= 9_000_000) by (nonlinear_arith)
                        requires 9 <= b <= 9000, 0 < lthr <= 1000, b == 9 * (lthr as int);
                }
                Some(dur * hr * hr * 25 / (9 * lthr * lthr))
            } else {
                None
            },
            _ => None,
        };

        let efficiency: Option<i64> = match average_hr {
            Some(hr) => if run && hr > 0 {
                match pace_min_per_km {
                    Some(p) => Some(p * 10 / hr),
                    None => None,
                }
            } else if ride && hr > 0 {
                match average_watts {
                    Some(w) => Some(w * 1000 / hr),
                    None => None,
                }
            } else {
                None
            },
            None => None,
        };

        let cardiac_cost: Option<i64> = match (average_hr, duration_seconds) {
            (Some(hr), Some(dur)) => {
                proof {
                    assert(hr * dur <= MAX_HEART_RATE * MAX_DURATION_SECONDS) by (nonlinear_arith)
                        requires 0 <= hr <= MAX_HEART_RATE, 0 <= dur <= MAX_DURATION_SECONDS;
                }
                Some(hr * dur * 5 / 3)
            },
            _ => None,
        };

        let hr_zone: Option<HrZone> = match (average_hr, settings.max_hr) {
            (Some(hr), Some(max)) => Some(HrZone::from_hr(hr, max)),
            _ => None,
        };

        WorkoutMetrics { pace_min_per_km, speed_kmh, kj, rtss, efficiency, cardiac_cost, hr_zone }
    }
}

} // verus!
