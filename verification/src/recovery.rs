//! Sleep and recovery context: the nightly readings the engine may show
//! beside the training context, and the small trend derivations over
//! them. Fractional quantities are hundredths ("centi").

use vstd::prelude::*;
use crate::settings::MAX_HEART_RATE;

verus! {

/// Nightly sleep target in hundredths of an hour.
pub const SLEEP_TARGET_CENTI_HOURS: i64 = 800;

/// Upper bound on an HRV reading, in hundredths of a millisecond.
pub const MAX_HRV_CENTI_MS: i64 = 100_000;

/// Sleep and recovery readings for coach analysis: raw values only, no
/// proprietary scores.
#[derive(Debug, Clone, PartialEq)]
pub struct OuraContext {
    /// Last night's sleep in centi-hours.
    pub sleep_duration_hours: Option<i64>,
    /// Last night's deep sleep in centi-hours.
    pub deep_sleep_hours: Option<i64>,
    /// Last night's REM sleep in centi-hours.
    pub rem_sleep_hours: Option<i64>,
    /// Last night's sleep efficiency in percent.
    pub sleep_efficiency_pct: Option<i64>,
    /// Seven-day average sleep in centi-hours.
    pub sleep_avg_7d: Option<i64>,
    /// Cumulative shortfall against the eight-hour target over seven
    /// days, in centi-hours.
    pub sleep_debt_hours: Option<i64>,
    /// Last night's HRV in centi-milliseconds.
    pub hrv_last_night: Option<i64>,
    /// Seven-day average HRV in centi-milliseconds.
    pub hrv_avg_7d: Option<i64>,
    /// "declining", "stable" or "improving".
    pub hrv_trend_direction: Option<String>,
    /// Consecutive days of declining HRV.
    pub hrv_declining_days: Option<u8>,
    /// Last night's resting heart rate.
    pub resting_hr: Option<i64>,
    /// Seven-day average resting heart rate.
    pub resting_hr_avg_7d: Option<i64>,
    /// "up", "stable" or "down".
    pub resting_hr_trend: Option<String>,
}

impl Default for OuraContext {
    /// No readings at all.
    fn default() -> (r: Self)
        ensures
            r.sleep_duration_hours is None,
            r.deep_sleep_hours is None,
            r.rem_sleep_hours is None,
            r.sleep_efficiency_pct is None,
            r.sleep_avg_7d is None,
            r.sleep_debt_hours is None,
            r.hrv_last_night is None,
            r.hrv_avg_7d is None,
            r.hrv_trend_direction is None,
            r.hrv_declining_days is None,
            r.resting_hr is None,
            r.resting_hr_avg_7d is None,
            r.resting_hr_trend is None,
    {
        OuraContext {
            sleep_duration_hours: None,
            deep_sleep_hours: None,
            rem_sleep_hours: None,
            sleep_efficiency_pct: None,
            sleep_avg_7d: None,
            sleep_debt_hours: None,
            hrv_last_night: None,
            hrv_avg_7d: None,
            hrv_trend_direction: None,
            hrv_declining_days: None,
            resting_hr: None,
            resting_hr_avg_7d: None,
            resting_hr_trend: None,
        }
    }
}

impl OuraContext {
    /// Any reading is present.
    pub fn has_data(&self) -> (r: bool)
        ensures
            r == (self.sleep_duration_hours is Some || self.hrv_last_night is Some
                || self.resting_hr is Some),
    {
        self.sleep_duration_hours.is_some() || self.hrv_last_night.is_some()
            || self.resting_hr.is_some()
    }

    /// The cumulative shortfall against the eight-hour nightly target
    /// over seven days, absent when there is no shortfall.
    pub open spec fn spec_sleep_debt(sleep_avg_7d: Option<i64>) -> Option<i64> {
        match sleep_avg_7d {
            Some(avg) => {
                let debt = (SLEEP_TARGET_CENTI_HOURS - avg) * 7;
                if debt > 0 {
                    Some(debt as i64)
                } else {
                    None
                }
            },
            None => None,
        }
    }

    /// Compute the sleep debt from the seven-day average, both in
    /// centi-hours.
    pub fn compute_sleep_debt(sleep_avg_7d: Option<i64>) -> (r: Option<i64>)
        requires
            sleep_avg_7d matches Some(a) ==> 0 <= a <= 10_000,
        ensures
            r == Self::spec_sleep_debt(sleep_avg_7d),
    {
        match sleep_avg_7d {
            Some(avg) => {
                let debt = (SLEEP_TARGET_CENTI_HOURS - avg) * 7;
                if debt > 0 {
                    Some(debt)
                } else {
                    None
                }
            },
            None => None,
        }
    }

    /// The HRV trend against the seven-day average: more than 5% below is
    /// declining, more than 5% above improving, else stable; absent
    /// without both readings. A zero average with a positive reading
    /// counts as improving.
    pub open spec fn spec_hrv_trend(hrv_current: Option<i64>, hrv_avg: Option<i64>)
        -> Option<Seq<char>> {
        match (hrv_current, hrv_avg) {
            (Some(cur), Some(avg)) => {
                let delta = cur - avg;
                if delta * 100 < -5 * avg {
                    Some("declining"@)
                } else if delta * 100 > 5 * avg {
                    Some("improving"@)
                } else {
                    Some("stable"@)
                }
            },
            _ => None,
        }
    }

    /// Determine the HRV trend direction, readings in centi-milliseconds.
    pub fn determine_hrv_trend(hrv_current: Option<i64>, hrv_avg: Option<i64>) -> (r: Option<
        String,
    >)
        requires
            hrv_current matches Some(c) ==> 0 <= c <= MAX_HRV_CENTI_MS,
            hrv_avg matches Some(a) ==> 0 <= a <= MAX_HRV_CENTI_MS,
        ensures
            match (r, Self::spec_hrv_trend(hrv_current, hrv_avg)) {
                (Some(s), Some(v)) => s@ == v,
                (None, None) => true,
                _ => false,
            },
    {
        match (hrv_current, hrv_avg) {
            (Some(cur), Some(avg)) => {
                let delta = cur - avg;
                if delta * 100 < -5 * avg {
                    Some(String::from_str("declining"))
                } else if delta * 100 > 5 * avg {
                    Some(String::from_str("improving"))
                } else {
                    Some(String::from_str("stable"))
                }
            },
            _ => None,
        }
    }

    /// Consecutive days of declining HRV. No per-day HRV history is kept
    /// yet, so nothing can be counted.
    pub fn count_hrv_declining_days() -> (r: Option<u8>)
        ensures
            r is None,
    {
        None
    }

    /// The resting heart-rate trend against the seven-day average: more
    /// than three beats above is up, more than three below is down, else
    /// stable; absent without both readings.
    pub open spec fn spec_resting_hr_trend(current: Option<i64>, avg: Option<i64>) -> Option<
        Seq<char>,
    > {
        match (current, avg) {
            (Some(cur), Some(avg)) => if cur > avg + 3 {
                Some("up"@)
            } else if cur < avg - 3 {
                Some("down"@)
            } else {
                Some("stable"@)
            },
            _ => None,
        }
    }

    /// Determine the resting heart-rate trend direction.
    pub fn determine_resting_hr_trend(current: Option<i64>, avg: Option<i64>) -> (r: Option<
        String,
    >)
        requires
            current matches Some(c) ==> 0 <= c <= MAX_HEART_RATE,
            avg matches Some(a) ==> 0 <= a <= MAX_HEART_RATE,
        ensures
            match (r, Self::spec_resting_hr_trend(current, avg)) {
                (Some(s), Some(v)) => s@ == v,
                (None, None) => true,
                _ => false,
            },
    {
        match (current, avg) {
            (Some(cur), Some(avg)) => if cur > avg + 3 {
                Some(String::from_str("up"))
            } else if cur < avg - 3 {
                Some(String::from_str("down"))
            } else {
                Some(String::from_str("stable"))
            },
            _ => None,
        }
    }
}

} // verus!
