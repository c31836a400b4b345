//! Fatigue state derived from the training context: the TSB band, a rough
//! TSB trend, the durations a regulated ride may take, and a confidence
//! grade for the daily prescription.

use vstd::prelude::*;
use crate::clock::day_wf;
use crate::context::{in_range, rtss_or_zero, workouts_wf, TrainingContext, WorkoutSummary};
use crate::text::str_eq;

verus! {

/// TSB above this is fresh, in hundredths.
pub const FRESH_ABOVE_CENTI: i64 = 500;

/// TSB above this (and not fresh) is slight fatigue, in hundredths.
pub const SLIGHT_ABOVE_CENTI: i64 = -1000;

/// TSB above this (and not slight) is moderate fatigue; below is high
/// fatigue, in hundredths.
pub const MODERATE_ABOVE_CENTI: i64 = -2000;

/// The band a TSB value falls in, as its display name.
pub open spec fn spec_tsb_band(tsb: Option<i64>) -> Seq<char> {
    match tsb {
        Some(t) => if t > FRESH_ABOVE_CENTI {
            "fresh"@
        } else if t > SLIGHT_ABOVE_CENTI {
            "slightly_fatigued"@
        } else if t > MODERATE_ABOVE_CENTI {
            "moderate_fatigue"@
        } else {
            "high_fatigue"@
        },
        None => "unknown"@,
    }
}

/// Classify a TSB value (in hundredths) into its band name.
pub fn tsb_band(tsb: Option<i64>) -> (r: &'static str)
    ensures
        r@ == spec_tsb_band(tsb),
{
    match tsb {
        Some(t) => if t > FRESH_ABOVE_CENTI {
            "fresh"
        } else if t > SLIGHT_ABOVE_CENTI {
            "slightly_fatigued"
        } else if t > MODERATE_ABOVE_CENTI {
            "moderate_fatigue"
        } else {
            "high_fatigue"
        },
        None => "unknown",
    }
}

/// Sum of stress scores of the workouts aged in `[lo, hi)` days.
pub open spec fn spec_rtss_sum_range(ws: Seq<WorkoutSummary>, today: int, lo: int, hi: int) -> int
    decreases ws.len(),
{
    if ws.len() == 0 {
        0
    } else {
        spec_rtss_sum_range(ws.drop_last(), today, lo, hi) + if in_range(
            ws.last(),
            today,
            lo,
            hi,
        ) {
            rtss_or_zero(ws.last())
        } else {
            0
        }
    }
}

/// Number of workouts aged in `[lo, hi)` days.
pub open spec fn spec_count_range(ws: Seq<WorkoutSummary>, today: int, lo: int, hi: int) -> int
    decreases ws.len(),
{
    if ws.len() == 0 {
        0
    } else {
        spec_count_range(ws.drop_last(), today, lo, hi) + if in_range(ws.last(), today, lo, hi) {
            1int
        } else {
            0
        }
    }
}

/// The TSB trend name: "unknown" without a TSB or without prior-week
/// workouts; otherwise a rough direction from the prior week's average
/// stress score — improving when TSB is above -10 and the prior week was
/// light (average below 40 points), declining when TSB is below -15 and
/// the prior week was heavy (average above 50 points), else stable.
pub open spec fn spec_tsb_trend(ws: Seq<WorkoutSummary>, tsb: Option<i64>, today: int)
    -> Seq<char> {
    match tsb {
        None => "unknown"@,
        Some(t) => {
            let cnt = spec_count_range(ws, today, 7, 14);
            if cnt == 0 {
                "unknown"@
            } else {
                let avg = spec_rtss_sum_range(ws, today, 7, 14) / cnt;
                if t > -1000 && avg < 4000 {
                    "improving"@
                } else if t < -1500 && avg > 5000 {
                    "declining"@
                } else {
                    "stable"@
                }
            }
        },
    }
}

/// Fatigue metrics with the TSB band and trend, for rendering.
#[derive(Debug, Clone, PartialEq)]
pub struct FatigueContext {
    /// Acute training load in hundredths.
    pub atl: Option<i64>,
    /// Chronic training load in hundredths.
    pub ctl: Option<i64>,
    /// Training stress balance in hundredths.
    pub tsb: Option<i64>,
    /// The band the TSB falls in.
    pub tsb_band: String,
    /// The rough direction the TSB is moving in.
    pub tsb_trend: String,
}

impl FatigueContext {
    /// Build the fatigue context from the rolling context alone; the trend
    /// is unknown without workout history.
    pub fn from_training_context(ctx: &TrainingContext) -> (r: FatigueContext)
        ensures
            r.atl == ctx.atl,
            r.ctl == ctx.ctl,
            r.tsb == ctx.tsb,
            r.tsb_band@ == spec_tsb_band(ctx.tsb),
            r.tsb_trend@ == "unknown"@,
    {
        FatigueContext {
            atl: ctx.atl,
            ctl: ctx.ctl,
            tsb: ctx.tsb,
            tsb_band: String::from_str(tsb_band(ctx.tsb)),
            tsb_trend: String::from_str("unknown"),
        }
    }

    /// Build the fatigue context with the trend derived from the prior
    /// week of workouts.
    pub fn from_training_context_and_workouts(
        ctx: &TrainingContext,
        workouts: &Vec<WorkoutSummary>,
        today: i64,
    ) -> (r: FatigueContext)
        requires
            workouts_wf(workouts@),
            day_wf(today),
        ensures
            r.atl == ctx.atl,
            r.ctl == ctx.ctl,
            r.tsb == ctx.tsb,
            r.tsb_band@ == spec_tsb_band(ctx.tsb),
            r.tsb_trend@ == spec_tsb_trend(workouts@, ctx.tsb, today as int),
    {
        FatigueContext {
            atl: ctx.atl,
            ctl: ctx.ctl,
            tsb: ctx.tsb,
            tsb_band: String::from_str(tsb_band(ctx.tsb)),
            tsb_trend: String::from_str(compute_tsb_trend(workouts, ctx.tsb, today)),
        }
    }
}

/// Compute the TSB trend direction from the prior week of workouts.
fn compute_tsb_trend(workouts: &Vec<WorkoutSummary>, current_tsb: Option<i64>, today: i64) -> (r:
    &'static str)
    requires
        workouts_wf(workouts@),
        day_wf(today),
    ensures
        r@ == spec_tsb_trend(workouts@, current_tsb, today as int),
{
    let t: i64 = match current_tsb {
        Some(t) => t,
        None => {
            return "unknown";
        },
    };
    let ghost all = workouts@;
    let n = workouts.len();
    let mut sum: i64 = 0;
    let mut cnt: i64 = 0;
    let mut i: usize = 0;
    while i < n
        invariant
            i <= n,
            n == all.len(),
            workouts@ == all,
            workouts_wf(all),
            day_wf(today),
            sum == spec_rtss_sum_range(all.take(i as int), today as int, 7, 14),
            cnt == spec_count_range(all.take(i as int), today as int, 7, 14),
            0 <= cnt <= i,
            0 <= sum <= i * crate::context::MAX_RTSS_CENTI,
        decreases n - i,
    {
        proof {
            assert(all[i as int].wf());
        }
        let w = &workouts[i];
        let elapsed = today - w.started_day;
        if 7 <= elapsed && elapsed < 14 {
            cnt = cnt + 1;
            if let Some(rt) = w.rtss {
                sum = sum + rt;
            }
        }
        proof {
            assert(all.take(i + 1).drop_last() =~= all.take(i as int));
            assert(all.take(i + 1).last() == all[i as int]);
        }
        i = i + 1;
    }
    proof {
        assert(all.take(n as int) =~= all);
    }
    if cnt == 0 {
        return "unknown";
    }
    let avg = sum / cnt;
    if t > -1000 && avg < 4000 {
        "improving"
    } else if t < -1500 && avg > 5000 {
        "declining"
    } else {
        "stable"
    }
}

/// The duration options a regulated ride may take today, in minutes.
#[derive(Debug, Clone, PartialEq)]
pub struct DurationOptions {
    /// The short option.
    pub short: i32,
    /// The standard option.
    pub standard: i32,
    /// The long option.
    pub long: i32,
    /// Which option the band recommends: "short", "standard" or "long".
    pub recommended: String,
}

/// Allowed durations for the TSB-regulated ride dimension.
#[derive(Debug, Clone, PartialEq)]
pub struct AllowedDurations {
    /// Options for the steady ride.
    pub z2_ride: DurationOptions,
}

/// The option set of one band: (recommended, short, standard, long).
pub open spec fn spec_durations(band: Seq<char>) -> (Seq<char>, i32, i32, i32) {
    if band == "fresh"@ {
        ("long"@, 45, 60, 60)
    } else if band == "slightly_fatigued"@ {
        ("standard"@, 40, 45, 60)
    } else if band == "moderate_fatigue"@ {
        ("short"@, 40, 45, 45)
    } else if band == "high_fatigue"@ {
        ("short"@, 30, 40, 40)
    } else {
        ("standard"@, 40, 45, 60)
    }
}

impl AllowedDurations {
    /// The durations a regulated ride may take, given a TSB band name.
    pub fn from_tsb_band(tsb_band: &str) -> (r: AllowedDurations)
        ensures
            r.z2_ride.recommended@ == spec_durations(tsb_band@).0,
            r.z2_ride.short == spec_durations(tsb_band@).1,
            r.z2_ride.standard == spec_durations(tsb_band@).2,
            r.z2_ride.long == spec_durations(tsb_band@).3,
    {
        let (recommended, short, standard, long): (&'static str, i32, i32, i32) = if str_eq(
            tsb_band,
            "fresh",
        ) {
            ("long", 45, 60, 60)
        } else if str_eq(tsb_band, "slightly_fatigued") {
            ("standard", 40, 45, 60)
        } else if str_eq(tsb_band, "moderate_fatigue") {
            ("short", 40, 45, 45)
        } else if str_eq(tsb_band, "high_fatigue") {
            ("short", 30, 40, 40)
        } else {
            ("standard", 40, 45, 60)
        };
        AllowedDurations {
            z2_ride: DurationOptions {
                short,
                standard,
                long,
                recommended: String::from_str(recommended),
            },
        }
    }
}

/// How much to trust today's prescription, from signal quality.
#[derive(Debug, Clone, PartialEq)]
pub struct PrescriptionConfidence {
    /// "high", "medium" or "low".
    pub level: String,
    /// A brief explanation.
    pub reason: String,
}

/// The confidence level: high on clear signals and good data (a TSB, at
/// most one flag, adherence above 80%, five or more recent workouts); low
/// on mixed signals or sparse data (no TSB, three or more flags, or fewer
/// than three recent workouts); else medium. Adherence is in hundredths of
/// a percent.
pub open spec fn spec_confidence_level(
    tsb: Option<i64>,
    flags_count: int,
    adherence_pct: int,
    recent_workouts_count: int,
) -> Seq<char> {
    if tsb is Some && flags_count <= 1 && adherence_pct > 8000 && recent_workouts_count >= 5 {
        "high"@
    } else if tsb is None || flags_count >= 3 || recent_workouts_count < 3 {
        "low"@
    } else {
        "medium"@
    }
}

impl PrescriptionConfidence {
    /// Grade the prescription's confidence. Adherence is in hundredths of
    /// a percent.
    pub fn compute(
        tsb: Option<i64>,
        flags_count: usize,
        adherence_pct: i64,
        recent_workouts_count: usize,
    ) -> (r: PrescriptionConfidence)
        ensures
            r.level@ == spec_confidence_level(
                tsb,
                flags_count as int,
                adherence_pct as int,
                recent_workouts_count as int,
            ),
            r.level@ == "high"@ ==> r.reason@ == "Clear signals, good data"@,
            r.level@ == "low"@ ==> r.reason@ == "Mixed signals or limited data"@,
            r.level@ == "medium"@ ==> r.reason@ == "Some mixed indicators"@,
    {
        if matches!(tsb, Some(_)) && flags_count <= 1 && adherence_pct > 8000
            && recent_workouts_count >= 5 {
            proof {
                lemma_level_names_differ();
            }
            return PrescriptionConfidence {
                level: String::from_str("high"),
                reason: String::from_str("Clear signals, good data"),
            };
        }
        if matches!(tsb, None) || flags_count >= 3 || recent_workouts_count < 3 {
            proof {
                lemma_level_names_differ();
            }
            return PrescriptionConfidence {
                level: String::from_str("low"),
                reason: String::from_str("Mixed signals or limited data"),
            };
        }
        proof {
            lemma_level_names_differ();
        }
        PrescriptionConfidence {
            level: String::from_str("medium"),
            reason: String::from_str("Some mixed indicators"),
        }
    }
}

/// The three confidence level names are pairwise distinct.
proof fn lemma_level_names_differ()
    ensures
        "high"@ != "low"@,
        "high"@ != "medium"@,
        "low"@ != "medium"@,
{
    reveal_strlit("high");
    reveal_strlit("low");
    reveal_strlit("medium");
    assert("high"@.len() == 4);
    assert("low"@.len() == 3);
    assert("medium"@.len() == 6);
}

} // verus!
