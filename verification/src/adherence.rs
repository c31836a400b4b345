//! Weekly adherence: completion ratios that gate the decision engine.

use vstd::prelude::*;
use crate::clock::day_wf;
use crate::context::{in_window, spec_count, workouts_wf, WorkoutSummary};
use crate::settings::UserSettings;
use crate::text::spec_is_run;

verus! {

/// Adherence below this share of expected sessions makes the week
/// unstable, in hundredths of a percent.
pub const UNSTABLE_BELOW_CENTI_PCT: i64 = 7000;

/// Adherence at or above this share, with key sessions done, makes the
/// week stable, in hundredths of a percent.
pub const STABLE_AT_CENTI_PCT: i64 = 7500;

/// A run longer than this many seconds counts as a key session.
pub const KEY_SESSION_MIN_SECONDS: i64 = 2700;

/// Weekly completion ratios, derived per evaluation from a 7-day window.
#[derive(Debug, Clone, PartialEq)]
pub struct AdherenceSummary {
    /// Sessions expected this week.
    pub total_expected: u8,
    /// Sessions completed this week.
    pub total_completed: u8,
    /// Key sessions expected this week.
    pub key_expected: u8,
    /// Key sessions completed this week.
    pub key_completed: u8,
    /// Completed over expected, in hundredths of a percent (may exceed
    /// 10000 when more was done than expected); 10000 when nothing was
    /// expected.
    pub adherence_pct: i64,
    /// Key sessions completed at least as often as expected.
    pub key_adherence_good: bool,
    /// The week counts as stable: adherence at or above 75% and key
    /// sessions done.
    pub week_stable: bool,
    /// Expected sessions that were not completed.
    pub missed_workouts: u8,
    /// How many weeks in a row adherence has been low.
    pub consecutive_low_adherence_weeks: u8,
}

impl AdherenceSummary {
    /// The summary as a function of the four counts and the low-week run.
    pub open spec fn spec_compute(
        total_expected: u8,
        total_completed: u8,
        key_expected: u8,
        key_completed: u8,
        consecutive_low_weeks: u8,
    ) -> AdherenceSummary {
        let pct: int = if total_expected > 0 {
            total_completed * 10000 / (total_expected as int)
        } else {
            10000
        };
        let key_good = key_completed >= key_expected;
        AdherenceSummary {
            total_expected,
            total_completed,
            key_expected,
            key_completed,
            adherence_pct: pct as i64,
            key_adherence_good: key_good,
            week_stable: pct >= STABLE_AT_CENTI_PCT && key_good,
            missed_workouts: if total_completed >= total_expected {
                0u8
            } else {
                (total_expected - total_completed) as u8
            },
            consecutive_low_adherence_weeks: consecutive_low_weeks,
        }
    }

    /// Derive the summary from the week's counts.
    pub fn compute(
        total_expected: u8,
        total_completed: u8,
        key_expected: u8,
        key_completed: u8,
        consecutive_low_weeks: u8,
    ) -> (r: AdherenceSummary)
        ensures
            r == Self::spec_compute(
                total_expected,
                total_completed,
                key_expected,
                key_completed,
                consecutive_low_weeks,
            ),
    {
        let pct: i64 = if total_expected > 0 {
            (total_completed as i64) * 10000 / (total_expected as i64)
        } else {
            10000
        };
        let key_adherence_good = key_completed >= key_expected;
        AdherenceSummary {
            total_expected,
            total_completed,
            key_expected,
            key_completed,
            adherence_pct: pct,
            key_adherence_good,
            week_stable: pct >= STABLE_AT_CENTI_PCT && key_adherence_good,
            missed_workouts: if total_completed >= total_expected {
                0
            } else {
                total_expected - total_completed
            },
            consecutive_low_adherence_weeks: consecutive_low_weeks,
        }
    }

    /// The week is unstable: adherence below 70%.
    pub open spec fn spec_is_unstable(self) -> bool {
        self.adherence_pct < UNSTABLE_BELOW_CENTI_PCT
    }

    /// Whether the week's adherence was below 70%.
    pub fn is_unstable(&self) -> (r: bool)
        ensures
            r == self.spec_is_unstable(),
    {
        self.adherence_pct < UNSTABLE_BELOW_CENTI_PCT
    }

    /// Two or more consecutive low-adherence weeks warrant regression.
    pub open spec fn spec_should_consider_regression(self) -> bool {
        self.consecutive_low_adherence_weeks >= 2
    }

    /// Whether the low-adherence run warrants a regression.
    pub fn should_consider_regression(&self) -> (r: bool)
        ensures
            r == self.spec_should_consider_regression(),
    {
        self.consecutive_low_adherence_weeks >= 2
    }
}

impl Default for AdherenceSummary {
    /// A fully adherent week: six of six sessions, three of three key
    /// sessions, no low weeks.
    fn default() -> (r: Self)
        ensures
            r == AdherenceSummary::spec_compute(6u8, 6u8, 3u8, 3u8, 0u8),
    {
        AdherenceSummary {
            total_expected: 6,
            total_completed: 6,
            key_expected: 3,
            key_completed: 3,
            adherence_pct: 10000,
            key_adherence_good: true,
            week_stable: true,
            missed_workouts: 0,
            consecutive_low_adherence_weeks: 0,
        }
    }
}

/// How many preceding full weeks the 42-day history can judge.
pub const LOW_WEEK_HORIZON: i64 = 5;

/// Week `m` before the evaluation day — its workouts are aged
/// `[7m, 7m+7)` days — completed under 70% of the expected sessions.
/// A week with no expected sessions is never low.
pub open spec fn spec_week_low(
    ws: Seq<WorkoutSummary>,
    settings: UserSettings,
    today: int,
    m: int,
) -> bool {
    &&& settings.training_days_per_week > 0
    &&& crate::fatigue::spec_count_range(ws, today, 7 * m, 7 * m + 7) * 10000
        < UNSTABLE_BELOW_CENTI_PCT * settings.training_days_per_week
}

/// Length of the run of low weeks starting at week `m`, within the
/// horizon the stored history can judge.
pub open spec fn spec_low_weeks_from(
    ws: Seq<WorkoutSummary>,
    settings: UserSettings,
    today: int,
    m: int,
) -> int
    decreases LOW_WEEK_HORIZON + 1 - m,
{
    if m < 1 || m > LOW_WEEK_HORIZON {
        0
    } else if spec_week_low(ws, settings, today, m) {
        1 + spec_low_weeks_from(ws, settings, today, m + 1)
    } else {
        0
    }
}

/// A run of low weeks up to a first non-low week (or the horizon) has
/// exactly that length.
proof fn lemma_low_weeks_value(
    ws: Seq<WorkoutSummary>,
    settings: UserSettings,
    today: int,
    q: int,
    m: int,
)
    requires
        1 <= q <= m <= LOW_WEEK_HORIZON + 1,
        forall|w: int| q <= w < m ==> spec_week_low(ws, settings, today, w),
        m <= LOW_WEEK_HORIZON ==> !spec_week_low(ws, settings, today, m),
    ensures
        spec_low_weeks_from(ws, settings, today, q) == m - q,
    decreases m - q,
{
    if q < m {
        lemma_low_weeks_value(ws, settings, today, q + 1, m);
    }
}

/// Count the workouts whose age in days lies in `[7m, 7m+7)`.
fn week_completed_count(workouts: &Vec<WorkoutSummary>, today: i64, m: i64) -> (c: i64)
    requires
        workouts_wf(workouts@),
        day_wf(today),
        1 <= m <= LOW_WEEK_HORIZON,
    ensures
        c == crate::fatigue::spec_count_range(workouts@, today as int, 7 * m, 7 * m + 7),
        0 <= c <= workouts@.len(),
{
    let ghost all = workouts@;
    let n = workouts.len();
    let mut c: i64 = 0;
    let mut i: usize = 0;
    while i < n
        invariant
            i <= n,
            n == all.len(),
            workouts@ == all,
            workouts_wf(all),
            day_wf(today),
            1 <= m <= LOW_WEEK_HORIZON,
            c == crate::fatigue::spec_count_range(all.take(i as int), today as int, 7 * m,
                7 * m + 7),
            0 <= c <= i,
        decreases n - i,
    {
        proof {
            assert(all[i as int].wf());
        }
        let w = &workouts[i];
        let elapsed = today - w.started_day;
        if 7 * m <= elapsed && elapsed < 7 * m + 7 {
            c = c + 1;
        }
        proof {
            assert(all.take(i + 1).drop_last() =~= all.take(i as int));
            assert(all.take(i + 1).last() == all[i as int]);
        }
        i = i + 1;
    }
    proof {
        assert(all.take(n as int) =~= all);
    }
    c
}

/// Derive how many weeks in a row adherence has been low, from the
/// preceding full weeks of the stored history: weeks low back to back
/// from the most recent full week, judged against the expected sessions
/// per week, up to the horizon the 42-day history covers.
pub fn consecutive_low_weeks(
    workouts: &Vec<WorkoutSummary>,
    settings: &UserSettings,
    today: i64,
) -> (r: u8)
    requires
        workouts_wf(workouts@),
        settings.wf(),
        day_wf(today),
    ensures
        r as int == spec_low_weeks_from(workouts@, *settings, today as int, 1),
{
    let mut m: i64 = 1;
    while m <= LOW_WEEK_HORIZON
        invariant
            1 <= m <= LOW_WEEK_HORIZON + 1,
            workouts_wf(workouts@),
            settings.wf(),
            day_wf(today),
            forall|w: int| 1 <= w < m ==> spec_week_low(workouts@, *settings, today as int, w),
        decreases LOW_WEEK_HORIZON + 1 - m,
    {
        let completed = week_completed_count(workouts, today, m);
        let low = settings.training_days_per_week > 0 && completed * 10000 < 7000
            * settings.training_days_per_week;
        if !low {
            proof {
                lemma_low_weeks_value(workouts@, *settings, today as int, 1, m as int);
            }
            return (m - 1) as u8;
        }
        m = m + 1;
    }
    proof {
        lemma_low_weeks_value(
            workouts@,
            *settings,
            today as int,
            1,
            LOW_WEEK_HORIZON as int + 1,
        );
    }
    LOW_WEEK_HORIZON as u8
}

/// The workout counts as a completed key session of the week: a run in the
/// last seven days longer than 45 minutes.
pub open spec fn is_key_session(w: WorkoutSummary, today: int) -> bool {
    &&& in_window(w, today, 7)
    &&& spec_is_run(w.activity_type@)
    &&& (w.duration_seconds matches Some(d) && d > KEY_SESSION_MIN_SECONDS)
}

/// Number of completed key sessions in the last seven days.
pub open spec fn spec_key_count(ws: Seq<WorkoutSummary>, today: int) -> int
    decreases ws.len(),
{
    if ws.len() == 0 {
        0
    } else {
        spec_key_count(ws.drop_last(), today) + if is_key_session(ws.last(), today) {
            1int
        } else {
            0
        }
    }
}

/// A count clipped to what a byte can hold.
pub open spec fn clip_u8(n: int) -> u8 {
    if n >= 255 {
        255u8
    } else {
        n as u8
    }
}

/// Derive this week's adherence from the workout history: every workout of
/// the last seven days counts as completed; one key session — a run longer
/// than 45 minutes — is expected per week. Counts clip at 255. The caller
/// supplies how many weeks in a row adherence has been low, from its own
/// per-week records.
pub fn compute_adherence(
    workouts: &Vec<WorkoutSummary>,
    settings: &UserSettings,
    consecutive_low_weeks: u8,
    today: i64,
) -> (r: AdherenceSummary)
    requires
        workouts_wf(workouts@),
        settings.wf(),
        day_wf(today),
    ensures
        r == AdherenceSummary::spec_compute(
            clip_u8(settings.training_days_per_week as int),
            clip_u8(spec_count(workouts@, today as int, 7)),
            1u8,
            clip_u8(spec_key_count(workouts@, today as int)),
            consecutive_low_weeks,
        ),
{
    let ghost all = workouts@;
    let n = workouts.len();
    let mut completed: i64 = 0;
    let mut key: i64 = 0;
    let mut i: usize = 0;
    while i < n
        invariant
            i <= n,
            n == all.len(),
            workouts@ == all,
            workouts_wf(all),
            day_wf(today),
            completed == spec_count(all.take(i as int), today as int, 7),
            key == spec_key_count(all.take(i as int), today as int),
            0 <= key <= completed <= i,
        decreases n - i,
    {
        proof {
            assert(all[i as int].wf());
        }
        let w = &workouts[i];
        if today - w.started_day < 7 {
            completed = completed + 1;
            if crate::text::is_run(w.activity_type.as_str()) {
                match w.duration_seconds {
                    Some(d) => if d > KEY_SESSION_MIN_SECONDS {
                        key = key + 1;
                    },
                    None => (),
                }
            }
        }
        proof {
            assert(all.take(i + 1).drop_last() =~= all.take(i as int));
            assert(all.take(i + 1).last() == all[i as int]);
        }
        i = i + 1;
    }
    proof {
        assert(all.take(n as int) =~= all);
    }
    let total_expected: u8 = if settings.training_days_per_week >= 255 {
        255
    } else {
        settings.training_days_per_week as u8
    };
    let total_completed: u8 = if completed >= 255 {
        255
    } else {
        completed as u8
    };
    let key_completed: u8 = if key >= 255 {
        255
    } else {
        key as u8
    };
    AdherenceSummary::compute(total_expected, total_completed, 1, key_completed,
        consecutive_low_weeks)
}

} // verus!
