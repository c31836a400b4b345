//! Rolling training-load context: windowed aggregation over workout history
//! producing acute/chronic load, balance, volume, intensity distribution,
//! longest sessions and consistency.
//!
//! Windows are measured in whole days relative to a caller-supplied `today`
//! day number; the 7/14/28/42-day windows overlap rather than partition.
//! Fractional results are hundredths ("centi"). Missing data propagates as
//! absent, never defaulted to zero.

use vstd::prelude::*;
use crate::clock::day_wf;
use crate::metrics::MAX_DURATION_SECONDS;
use crate::settings::UserSettings;
use crate::text::{is_ride, is_run, spec_is_ride, spec_is_run};
use crate::zones::HrZone;

verus! {

/// Upper bound on the number of workouts one aggregation accepts.
pub const MAX_WORKOUTS: usize = 100_000;

/// Upper bound on a per-workout stress score, in hundredths.
pub const MAX_RTSS_CENTI: i64 = 10_000_000;

/// Upper bound on one workout's volume in hundredths of an hour:
/// `MAX_DURATION_SECONDS / 36`, written out so bounds stay linear.
pub const MAX_HOURS_CENTI: i64 = 277_777;

/// A workout summary used for rolling calculations.
#[derive(Debug, Clone, PartialEq)]
pub struct WorkoutSummary {
    /// Day number (days since the Unix epoch) of the workout's start.
    pub started_day: i64,
    /// Activity kind, matched case-insensitively against "run" and "ride".
    pub activity_type: String,
    /// Duration in seconds.
    pub duration_seconds: Option<i64>,
    /// Stress score in hundredths.
    pub rtss: Option<i64>,
    /// Heart-rate zone of the workout's average heart rate.
    pub hr_zone: Option<HrZone>,
}

impl WorkoutSummary {
    /// Field ranges that keep the window sums inside `i64`.
    pub open spec fn wf(self) -> bool {
        &&& day_wf(self.started_day)
        &&& (self.duration_seconds matches Some(d) ==> 0 <= d <= MAX_DURATION_SECONDS)
        &&& (self.rtss matches Some(r) ==> 0 <= r <= MAX_RTSS_CENTI)
    }
}

/// A whole history is well-formed and small enough to aggregate.
pub open spec fn workouts_wf(ws: Seq<WorkoutSummary>) -> bool {
    &&& ws.len() <= MAX_WORKOUTS
    &&& forall|i: int| 0 <= i < ws.len() ==> #[trigger] ws[i].wf()
}

/// Which modality a sum ranges over.
#[derive(Debug, Clone, Copy, PartialEq, Eq, Structural)]
pub enum KindSel {
    /// Every workout.
    All,
    /// Runs only.
    Run,
    /// Rides only.
    Ride,
    /// Neither runs nor rides.
    Other,
}

/// The workout falls under the selector.
pub open spec fn kind_matches(w: WorkoutSummary, sel: KindSel) -> bool {
    match sel {
        KindSel::All => true,
        KindSel::Run => spec_is_run(w.activity_type@),
        KindSel::Ride => spec_is_ride(w.activity_type@),
        KindSel::Other => !spec_is_run(w.activity_type@) && !spec_is_ride(w.activity_type@),
    }
}

/// The workout started fewer than `hi` days ago (a future start counts too).
pub open spec fn in_window(w: WorkoutSummary, today: int, hi: int) -> bool {
    today - w.started_day < hi
}

/// The workout's age in days lies in `[lo, hi)`.
pub open spec fn in_range(w: WorkoutSummary, today: int, lo: int, hi: int) -> bool {
    lo <= today - w.started_day < hi
}

/// The workout's stress score, or zero when absent.
pub open spec fn rtss_or_zero(w: WorkoutSummary) -> int {
    match w.rtss {
        Some(r) => r as int,
        None => 0,
    }
}

/// The workout's duration in hundredths of an hour (seconds over 36,
/// truncated), or zero when absent.
pub open spec fn hours_centi(w: WorkoutSummary) -> int {
    match w.duration_seconds {
        Some(d) => d / 36,
        None => 0,
    }
}

/// Sum of stress scores of the workouts started fewer than `hi` days ago.
pub open spec fn spec_rtss_sum(ws: Seq<WorkoutSummary>, today: int, hi: int) -> int
    decreases ws.len(),
{
    if ws.len() == 0 {
        0
    } else {
        spec_rtss_sum(ws.drop_last(), today, hi) + if in_window(ws.last(), today, hi) {
            rtss_or_zero(ws.last())
        } else {
            0
        }
    }
}

/// Sum of centi-hours of the selected workouts aged in `[lo, hi)` days.
pub open spec fn spec_hours_sum(
    ws: Seq<WorkoutSummary>,
    today: int,
    lo: int,
    hi: int,
    sel: KindSel,
) -> int
    decreases ws.len(),
{
    if ws.len() == 0 {
        0
    } else {
        spec_hours_sum(ws.drop_last(), today, lo, hi, sel) + if in_range(ws.last(), today, lo, hi)
            && kind_matches(ws.last(), sel) {
            hours_centi(ws.last())
        } else {
            0
        }
    }
}

/// The workout carries both a zone and a duration, and the zone matches the
/// selector (`None` selects every zoned workout).
pub open spec fn zone_matches(w: WorkoutSummary, sel: Option<HrZone>) -> bool {
    &&& w.hr_zone is Some
    &&& w.duration_seconds is Some
    &&& (sel matches Some(z) ==> w.hr_zone == Some(z))
}

/// Sum of zoned seconds in the window, restricted to one zone when `sel` is
/// `Some`.
pub open spec fn spec_zone_secs(
    ws: Seq<WorkoutSummary>,
    today: int,
    hi: int,
    sel: Option<HrZone>,
) -> int
    decreases ws.len(),
{
    if ws.len() == 0 {
        0
    } else {
        spec_zone_secs(ws.drop_last(), today, hi, sel) + if in_window(ws.last(), today, hi)
            && zone_matches(ws.last(), sel) {
            ws.last().duration_seconds->Some_0 as int
        } else {
            0
        }
    }
}

/// Number of workouts started fewer than `hi` days ago.
pub open spec fn spec_count(ws: Seq<WorkoutSummary>, today: int, hi: int) -> int
    decreases ws.len(),
{
    if ws.len() == 0 {
        0
    } else {
        spec_count(ws.drop_last(), today, hi) + if in_window(ws.last(), today, hi) {
            1int
        } else {
            0
        }
    }
}

/// Longest selected session in the window, in hundredths of a minute
/// (seconds times five over three), absent when none has a duration.
pub open spec fn spec_longest(
    ws: Seq<WorkoutSummary>,
    today: int,
    hi: int,
    sel: KindSel,
) -> Option<i64>
    decreases ws.len(),
{
    if ws.len() == 0 {
        None
    } else {
        let rest = spec_longest(ws.drop_last(), today, hi, sel);
        let w = ws.last();
        if in_window(w, today, hi) && kind_matches(w, sel) && w.duration_seconds is Some {
            let v = (w.duration_seconds->Some_0 * 5 / 3) as i64;
            match rest {
                None => Some(v),
                Some(m) => if v > m {
                    Some(v)
                } else {
                    Some(m)
                },
            }
        } else {
            rest
        }
    }
}

/// Weekly volume in hundredths of an hour, bucketed by modality.
#[derive(Debug, Clone, PartialEq)]
pub struct WeeklyVolume {
    /// All workouts.
    pub total_hrs: i64,
    /// Runs.
    pub run_hrs: i64,
    /// Rides.
    pub ride_hrs: i64,
    /// Everything else.
    pub other_hrs: i64,
}

/// Share of zoned minutes per zone over the last seven days, in hundredths
/// of a percent. The denominator excludes unzoned workouts.
#[derive(Debug, Clone, PartialEq)]
pub struct IntensityDistribution {
    /// Zone 1 share.
    pub z1_pct: i64,
    /// Zone 2 share.
    pub z2_pct: i64,
    /// Zone 3 share.
    pub z3_pct: i64,
    /// Zone 4 share.
    pub z4_pct: i64,
    /// Zone 5 share.
    pub z5_pct: i64,
}

/// Longest session per modality over the last 28 days, in hundredths of a
/// minute.
#[derive(Debug, Clone, PartialEq)]
pub struct LongestSession {
    /// Longest run.
    pub run_min: Option<i64>,
    /// Longest ride.
    pub ride_min: Option<i64>,
}

/// Point-in-time rolling snapshot of training load. Never authoritative
/// state: recomputed on each call.
#[derive(Debug, Clone, PartialEq)]
pub struct TrainingContext {
    /// Acute training load: 7-day stress-score sum, in hundredths; absent
    /// when the sum is exactly zero.
    pub atl: Option<i64>,
    /// Chronic training load: 42-day daily average of stress scores, in
    /// hundredths; absent when the 42-day sum is exactly zero.
    pub ctl: Option<i64>,
    /// Training stress balance: `ctl - atl / 7`, in hundredths, when both
    /// are present.
    pub tsb: Option<i64>,
    /// Volume of the last seven days by modality.
    pub weekly_volume: WeeklyVolume,
    /// Change of weekly volume against the week before, in hundredths of a
    /// percent; exactly +100% when the prior week was empty and this week
    /// is not; absent when both are empty.
    pub week_over_week_delta_pct: Option<i64>,
    /// Zone shares of the last seven days.
    pub intensity_distribution: IntensityDistribution,
    /// Longest sessions of the last 28 days.
    pub longest_session: LongestSession,
    /// Workouts of the last 28 days against the expectation of four weeks,
    /// in hundredths of a percent; absent when no sessions are expected.
    pub consistency_pct: Option<i64>,
    /// Number of workouts in the last seven days.
    pub workouts_this_week: i32,
}

/// One zone's share in centi-percent: zoned seconds of the zone against all
/// zoned seconds; zero when nothing is zoned.
pub open spec fn spec_zone_pct(zone_secs: int, total_secs: int) -> int {
    if total_secs > 0 {
        zone_secs * 10000 / total_secs
    } else {
        0
    }
}

/// Week-over-week volume delta in centi-percent, truncated toward zero;
/// +100% exactly when only this week has volume; absent when neither has.
pub open spec fn spec_week_delta(this_week: int, last_week: int) -> Option<i64> {
    if last_week > 0 {
        if this_week >= last_week {
            Some(((this_week - last_week) * 10000 / last_week) as i64)
        } else {
            Some((0 - (last_week - this_week) * 10000 / last_week) as i64)
        }
    } else if this_week > 0 {
        Some(10000i64)
    } else {
        None
    }
}

impl TrainingContext {
    /// The whole rolling context as a function of the history, the settings
    /// and the evaluation day.
    pub open spec fn spec_compute(
        ws: Seq<WorkoutSummary>,
        settings: UserSettings,
        today: int,
    ) -> TrainingContext {
        let asum = spec_rtss_sum(ws, today, 7);
        let csum = spec_rtss_sum(ws, today, 42);
        let this_week = spec_hours_sum(ws, today, i64::MIN as int, 7, KindSel::All);
        let last_week = spec_hours_sum(ws, today, 7, 14, KindSel::All);
        let zoned = spec_zone_secs(ws, today, 7, None);
        let count28 = spec_count(ws, today, 28);
        TrainingContext {
            atl: if asum > 0 { Some(asum as i64) } else { None },
            ctl: if csum > 0 { Some((csum / 42) as i64) } else { None },
            tsb: if asum > 0 && csum > 0 { Some((csum / 42 - asum / 7) as i64) } else { None },
            weekly_volume: WeeklyVolume {
                total_hrs: this_week as i64,
                run_hrs: spec_hours_sum(ws, today, i64::MIN as int, 7, KindSel::Run) as i64,
                ride_hrs: spec_hours_sum(ws, today, i64::MIN as int, 7, KindSel::Ride) as i64,
                other_hrs: spec_hours_sum(ws, today, i64::MIN as int, 7, KindSel::Other) as i64,
            },
            week_over_week_delta_pct: spec_week_delta(this_week, last_week),
            intensity_distribution: IntensityDistribution {
                z1_pct: spec_zone_pct(spec_zone_secs(ws, today, 7, Some(HrZone::Z1)), zoned) as i64,
                z2_pct: spec_zone_pct(spec_zone_secs(ws, today, 7, Some(HrZone::Z2)), zoned) as i64,
                z3_pct: spec_zone_pct(spec_zone_secs(ws, today, 7, Some(HrZone::Z3)), zoned) as i64,
                z4_pct: spec_zone_pct(spec_zone_secs(ws, today, 7, Some(HrZone::Z4)), zoned) as i64,
                z5_pct: spec_zone_pct(spec_zone_secs(ws, today, 7, Some(HrZone::Z5)), zoned) as i64,
            },
            longest_session: LongestSession {
                run_min: spec_longest(ws, today, 28, KindSel::Run),
                ride_min: spec_longest(ws, today, 28, KindSel::Ride),
            },
            consistency_pct: if settings.training_days_per_week > 0 {
                Some((count28 * 10000 / (settings.training_days_per_week * 4)) as i64)
            } else {
                None
            },
            workouts_this_week: spec_count(ws, today, 7) as i32,
        }
    }

    /// Compute the rolling training context from recent workouts, as of the
    /// day `today`.
    pub fn compute(
        workouts: &Vec<WorkoutSummary>,
        settings: &UserSettings,
        today: i64,
    ) -> (r: TrainingContext)
        requires
            workouts_wf(workouts@),
            settings.wf(),
            day_wf(today),
        ensures
            r == Self::spec_compute(workouts@, *settings, today as int),
    {
        let asum = rtss_sum_window(workouts, today, 7);
        let csum = rtss_sum_window(workouts, today, 42);

        let atl: Option<i64> = if asum > 0 { Some(asum) } else { None };
        let ctl: Option<i64> = if csum > 0 { Some(csum / 42) } else { None };
        let tsb: Option<i64> = if asum > 0 && csum > 0 { Some(csum / 42 - asum / 7) } else { None };

        let weekly_volume = volume_range(workouts, today, i64::MIN, 7);
        let last_week = volume_range(workouts, today, 7, 14);
        let week_over_week_delta_pct = week_delta(weekly_volume.total_hrs, last_week.total_hrs);

        let intensity_distribution = intensity_window(workouts, today, 7);
        let longest_session = longest_window(workouts, today, 28);

        let count28 = count_window(workouts, today, 28);
        let consistency_pct: Option<i64> = if settings.training_days_per_week > 0 {
            Some((count28 as i64) * 10000 / (settings.training_days_per_week * 4))
        } else {
            None
        };

        let count7 = count_window(workouts, today, 7);
        TrainingContext {
            atl,
            ctl,
            tsb,
            weekly_volume,
            week_over_week_delta_pct,
            intensity_distribution,
            longest_session,
            consistency_pct,
            workouts_this_week: count7 as i32,
        }
    }
}

impl TrainingContext {
    /// Compute the rolling context as of the current day, read from the
    /// system clock. The result equals `spec_compute` at whatever day the
    /// clock reported.
    pub fn compute_now(workouts: &Vec<WorkoutSummary>, settings: &UserSettings) -> (r:
        TrainingContext)
        requires
            workouts_wf(workouts@),
            settings.wf(),
        ensures
            exists|d: i64|
                day_wf(d) && r == TrainingContext::spec_compute(workouts@, *settings, d as int),
    {
        let today = crate::clock::now_epoch_day();
        let r = TrainingContext::compute(workouts, settings, today);
        proof {
            assert(day_wf(today) && r == TrainingContext::spec_compute(
                workouts@,
                *settings,
                today as int,
            ));
        }
        r
    }
}

/// Sum the stress scores of the workouts started fewer than `hi` days ago.
fn rtss_sum_window(workouts: &Vec<WorkoutSummary>, today: i64, hi: i64) -> (s: i64)
    requires
        workouts_wf(workouts@),
        day_wf(today),
        0 < hi <= 100,
    ensures
        s == spec_rtss_sum(workouts@, today as int, hi as int),
        0 <= s <= workouts@.len() * MAX_RTSS_CENTI,
{
    let ghost all = workouts@;
    let n = workouts.len();
    let mut s: i64 = 0;
    let mut i: usize = 0;
    while i < n
        invariant
            i <= n,
            n == all.len(),
            workouts@ == all,
            workouts_wf(all),
            day_wf(today),
            s == spec_rtss_sum(all.take(i as int), today as int, hi as int),
            0 <= s <= i * MAX_RTSS_CENTI,
        decreases n - i,
    {
        proof {
            assert(all[i as int].wf());
        }
        let w = &workouts[i];
        if today - w.started_day < hi {
            if let Some(r) = w.rtss {
                s = s + r;
            }
        }
        proof {
            assert(all.take(i + 1).drop_last() =~= all.take(i as int));
            assert(all.take(i + 1).last() == all[i as int]);
        }
        i = i + 1;
    }
    proof {
        assert(all.take(n as int) =~= all);
    }
    s
}

/// Sum the centi-hours of the workouts aged in `[lo, hi)` days, bucketed by
/// modality.
fn volume_range(workouts: &Vec<WorkoutSummary>, today: i64, lo: i64, hi: i64) -> (v: WeeklyVolume)
    requires
        workouts_wf(workouts@),
        day_wf(today),
        lo < hi <= 100,
    ensures
        v.total_hrs == spec_hours_sum(workouts@, today as int, lo as int, hi as int, KindSel::All),
        v.run_hrs == spec_hours_sum(workouts@, today as int, lo as int, hi as int, KindSel::Run),
        v.ride_hrs == spec_hours_sum(workouts@, today as int, lo as int, hi as int, KindSel::Ride),
        v.other_hrs == spec_hours_sum(workouts@, today as int, lo as int, hi as int, KindSel::Other),
        0 <= v.total_hrs <= workouts@.len() * MAX_HOURS_CENTI,
{
    let ghost all = workouts@;
    let n = workouts.len();
    let mut total: i64 = 0;
    let mut run: i64 = 0;
    let mut ride: i64 = 0;
    let mut other: i64 = 0;
    let mut i: usize = 0;
    while i < n
        invariant
            i <= n,
            n == all.len(),
            workouts@ == all,
            workouts_wf(all),
            day_wf(today),
            lo < hi <= 100,
            total == spec_hours_sum(all.take(i as int), today as int, lo as int, hi as int, KindSel::All),
            run == spec_hours_sum(all.take(i as int), today as int, lo as int, hi as int, KindSel::Run),
            ride == spec_hours_sum(all.take(i as int), today as int, lo as int, hi as int, KindSel::Ride),
            other == spec_hours_sum(all.take(i as int), today as int, lo as int, hi as int, KindSel::Other),
            0 <= total <= i * MAX_HOURS_CENTI,
            0 <= run <= i * MAX_HOURS_CENTI,
            0 <= ride <= i * MAX_HOURS_CENTI,
            0 <= other <= i * MAX_HOURS_CENTI,
        decreases n - i,
    {
        proof {
            assert(all[i as int].wf());
        }
        let w = &workouts[i];
        let elapsed = today - w.started_day;
        if lo <= elapsed && elapsed < hi {
            let hrs: i64 = match w.duration_seconds {
                Some(d) => d / 36,
                None => 0,
            };
            proof {
                reveal_strlit("run");
                reveal_strlit("ride");
                match w.duration_seconds {
                    Some(d) => vstd::arithmetic::div_mod::lemma_div_is_ordered(
                        d as int, MAX_DURATION_SECONDS as int, 36),
                    None => (),
                }
                assert(0 <= hrs <= MAX_HOURS_CENTI);
            }
            total = total + hrs;
            if is_run(w.activity_type.as_str()) {
                run = run + hrs;
            } else if is_ride(w.activity_type.as_str()) {
                ride = ride + hrs;
            } else {
                other = other + hrs;
            }
        }
        proof {
            assert(all.take(i + 1).drop_last() =~= all.take(i as int));
            assert(all.take(i + 1).last() == all[i as int]);
        }
        i = i + 1;
    }
    proof {
        assert(all.take(n as int) =~= all);
    }
    WeeklyVolume { total_hrs: total, run_hrs: run, ride_hrs: ride, other_hrs: other }
}

/// Week-over-week delta in centi-percent of two centi-hour volumes.
fn week_delta(this_week: i64, last_week: i64) -> (r: Option<i64>)
    requires
        0 <= this_week <= 100_000 * MAX_HOURS_CENTI,
        0 <= last_week <= 100_000 * MAX_HOURS_CENTI,
    ensures
        r == spec_week_delta(this_week as int, last_week as int),
{
    if last_week > 0 {
        if this_week >= last_week {
            Some((this_week - last_week) * 10000 / last_week)
        } else {
            Some(0 - (last_week - this_week) * 10000 / last_week)
        }
    } else if this_week > 0 {
        Some(10000)
    } else {
        None
    }
}

/// Zone shares of the zoned seconds in the window.
fn intensity_window(workouts: &Vec<WorkoutSummary>, today: i64, hi: i64) -> (r:
    IntensityDistribution)
    requires
        workouts_wf(workouts@),
        day_wf(today),
        0 < hi <= 100,
    ensures
        ({
            let zoned = spec_zone_secs(workouts@, today as int, hi as int, None);
            &&& r.z1_pct == spec_zone_pct(
                spec_zone_secs(workouts@, today as int, hi as int, Some(HrZone::Z1)), zoned)
            &&& r.z2_pct == spec_zone_pct(
                spec_zone_secs(workouts@, today as int, hi as int, Some(HrZone::Z2)), zoned)
            &&& r.z3_pct == spec_zone_pct(
                spec_zone_secs(workouts@, today as int, hi as int, Some(HrZone::Z3)), zoned)
            &&& r.z4_pct == spec_zone_pct(
                spec_zone_secs(workouts@, today as int, hi as int, Some(HrZone::Z4)), zoned)
            &&& r.z5_pct == spec_zone_pct(
                spec_zone_secs(workouts@, today as int, hi as int, Some(HrZone::Z5)), zoned)
        }),
{
    let ghost all = workouts@;
    let n = workouts.len();
    let mut z1: i64 = 0;
    let mut z2: i64 = 0;
    let mut z3: i64 = 0;
    let mut z4: i64 = 0;
    let mut z5: i64 = 0;
    let mut zoned: i64 = 0;
    let mut i: usize = 0;
    while i < n
        invariant
            i <= n,
            n == all.len(),
            workouts@ == all,
            workouts_wf(all),
            day_wf(today),
            0 < hi <= 100,
            z1 == spec_zone_secs(all.take(i as int), today as int, hi as int, Some(HrZone::Z1)),
            z2 == spec_zone_secs(all.take(i as int), today as int, hi as int, Some(HrZone::Z2)),
            z3 == spec_zone_secs(all.take(i as int), today as int, hi as int, Some(HrZone::Z3)),
            z4 == spec_zone_secs(all.take(i as int), today as int, hi as int, Some(HrZone::Z4)),
            z5 == spec_zone_secs(all.take(i as int), today as int, hi as int, Some(HrZone::Z5)),
            zoned == spec_zone_secs(all.take(i as int), today as int, hi as int, None),
            0 <= z1 <= i * MAX_DURATION_SECONDS,
            0 <= z2 <= i * MAX_DURATION_SECONDS,
            0 <= z3 <= i * MAX_DURATION_SECONDS,
            0 <= z4 <= i * MAX_DURATION_SECONDS,
            0 <= z5 <= i * MAX_DURATION_SECONDS,
            0 <= zoned <= i * MAX_DURATION_SECONDS,
        decreases n - i,
    {
        proof {
            assert(all[i as int].wf());
        }
        let w = &workouts[i];
        if today - w.started_day < hi {
            if let (Some(z), Some(d)) = (w.hr_zone, w.duration_seconds) {
                zoned = zoned + d;
                match z {
                    HrZone::Z1 => { z1 = z1 + d; },
                    HrZone::Z2 => { z2 = z2 + d; },
                    HrZone::Z3 => { z3 = z3 + d; },
                    HrZone::Z4 => { z4 = z4 + d; },
                    HrZone::Z5 => { z5 = z5 + d; },
                }
            }
        }
        proof {
            assert(all.take(i + 1).drop_last() =~= all.take(i as int));
            assert(all.take(i + 1).last() == all[i as int]);
        }
        i = i + 1;
    }
    proof {
        assert(all.take(n as int) =~= all);
    }
    if zoned > 0 {
        IntensityDistribution {
            z1_pct: z1 * 10000 / zoned,
            z2_pct: z2 * 10000 / zoned,
            z3_pct: z3 * 10000 / zoned,
            z4_pct: z4 * 10000 / zoned,
            z5_pct: z5 * 10000 / zoned,
        }
    } else {
        IntensityDistribution { z1_pct: 0, z2_pct: 0, z3_pct: 0, z4_pct: 0, z5_pct: 0 }
    }
}

/// Longest run and ride in the window, in centi-minutes.
fn longest_window(workouts: &Vec<WorkoutSummary>, today: i64, hi: i64) -> (r: LongestSession)
    requires
        workouts_wf(workouts@),
        day_wf(today),
        0 < hi <= 100,
    ensures
        r.run_min == spec_longest(workouts@, today as int, hi as int, KindSel::Run),
        r.ride_min == spec_longest(workouts@, today as int, hi as int, KindSel::Ride),
{
    let ghost all = workouts@;
    let n = workouts.len();
    let mut run: Option<i64> = None;
    let mut ride: Option<i64> = None;
    let mut i: usize = 0;
    while i < n
        invariant
            i <= n,
            n == all.len(),
            workouts@ == all,
            workouts_wf(all),
            day_wf(today),
            0 < hi <= 100,
            run == spec_longest(all.take(i as int), today as int, hi as int, KindSel::Run),
            ride == spec_longest(all.take(i as int), today as int, hi as int, KindSel::Ride),
        decreases n - i,
    {
        proof {
            assert(all[i as int].wf());
        }
        let w = &workouts[i];
        if today - w.started_day < hi {
            if let Some(d) = w.duration_seconds {
                let v = d * 5 / 3;
                proof {
                    reveal_strlit("run");
                    reveal_strlit("ride");
                }
                if is_run(w.activity_type.as_str()) {
                    run = match run {
                        None => Some(v),
                        Some(m) => if v > m { Some(v) } else { Some(m) },
                    };
                } else if is_ride(w.activity_type.as_str()) {
                    ride = match ride {
                        None => Some(v),
                        Some(m) => if v > m { Some(v) } else { Some(m) },
                    };
                }
            }
        }
        proof {
            assert(all.take(i + 1).drop_last() =~= all.take(i as int));
            assert(all.take(i + 1).last() == all[i as int]);
        }
        i = i + 1;
    }
    proof {
        assert(all.take(n as int) =~= all);
    }
    LongestSession { run_min: run, ride_min: ride }
}

/// Count the workouts started fewer than `hi` days ago.
fn count_window(workouts: &Vec<WorkoutSummary>, today: i64, hi: i64) -> (c: usize)
    requires
        workouts_wf(workouts@),
        day_wf(today),
        0 < hi <= 100,
    ensures
        c == spec_count(workouts@, today as int, hi as int),
        c <= workouts@.len(),
{
    let ghost all = workouts@;
    let n = workouts.len();
    let mut c: usize = 0;
    let mut i: usize = 0;
    while i < n
        invariant
            i <= n,
            n == all.len(),
            workouts@ == all,
            workouts_wf(all),
            day_wf(today),
            c == spec_count(all.take(i as int), today as int, hi as int),
            c <= i,
        decreases n - i,
    {
        proof {
            assert(all[i as int].wf());
        }
        let w = &workouts[i];
        if today - w.started_day < hi {
            c = c + 1;
        }
        proof {
            assert(all.take(i + 1).drop_last() =~= all.take(i as int));
            assert(all.take(i + 1).last() == all[i as int]);
        }
        i = i + 1;
    }
    proof {
        assert(all.take(n as int) =~= all);
    }
    c
}

} // verus!
