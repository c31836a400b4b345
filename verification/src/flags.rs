//! Training flags: boolean alerts derived from the rolling context, the
//! recent workout history and the dimension ceilings, with a fixed
//! rendering priority.

use vstd::prelude::*;
use crate::clock::day_wf;
use crate::context::{in_window, kind_matches, workouts_wf, KindSel, TrainingContext,
    WorkoutSummary};
use crate::dimension::{dims_wf, find_dimension, spec_dim_index, ProgressionDimension};
use crate::settings::UserSettings;
use crate::step::DimensionValue;

verus! {

/// Default long-run ceiling in minutes, when no dimension configures one.
pub const DEFAULT_LONG_RUN_CEILING_MIN: i64 = 90;

/// Default steady-ride ceiling in minutes, when no dimension configures
/// one.
pub const DEFAULT_RIDE_CEILING_MIN: i64 = 60;

/// Boolean alerts over the current training state. Stateless: recomputed
/// on each call.
#[derive(Debug, Clone, Copy, PartialEq, Eq, Structural)]
pub struct TrainingFlags {
    /// Acute load above 1.2 times the chronic weekly average.
    pub volume_spike: bool,
    /// Acute load below 0.7 times a meaningful chronic weekly average.
    pub volume_drop: bool,
    /// TSB below -20: accumulated fatigue.
    pub high_fatigue: bool,
    /// TSB between +5 and +15: racing form.
    pub peak_form: bool,
    /// Runs happened in three weeks, none reaching the long-run ceiling.
    pub long_run_gap: bool,
    /// Rides happened in three weeks, none reaching the ride ceiling.
    pub long_ride_gap: bool,
    /// More than 40% of zoned time at Z3 or above over seven days.
    pub intensity_heavy: bool,
    /// More than 80% of zoned time at Z1-Z2 over seven days.
    pub polarized_training: bool,
}

/// The ceiling of the named dimension in whole minutes, or the default
/// when the dimension is missing or its ceiling is not numeric.
pub open spec fn spec_ceiling_minutes(
    dims: Seq<ProgressionDimension>,
    name: Seq<char>,
    default: int,
) -> int {
    let i = spec_dim_index(dims, name);
    if i >= 0 {
        match dims[i].ceiling_value {
            DimensionValue::Minutes(m) => m as int,
            DimensionValue::Token(_) => default,
        }
    } else {
        default
    }
}

/// Some selected workout in the window.
pub open spec fn spec_any_kind(
    ws: Seq<WorkoutSummary>,
    today: int,
    hi: int,
    sel: KindSel,
) -> bool {
    exists|j: int|
        0 <= j < ws.len() && in_window(#[trigger] ws[j], today, hi) && kind_matches(ws[j], sel)
}

/// Some selected workout in the window lasting at least `thr` seconds.
pub open spec fn spec_any_at_least(
    ws: Seq<WorkoutSummary>,
    today: int,
    hi: int,
    sel: KindSel,
    thr: int,
) -> bool {
    exists|j: int|
        0 <= j < ws.len() && in_window(#[trigger] ws[j], today, hi) && kind_matches(ws[j], sel)
            && (ws[j].duration_seconds matches Some(d) && d >= thr)
}

impl TrainingFlags {
    /// All eight flags as a function of the history, the rolling context,
    /// the dimension set and the evaluation day.
    pub open spec fn spec_compute(
        ws: Seq<WorkoutSummary>,
        context: TrainingContext,
        dims: Seq<ProgressionDimension>,
        today: int,
    ) -> TrainingFlags {
        let run_thr = spec_ceiling_minutes(dims, "long_run"@, DEFAULT_LONG_RUN_CEILING_MIN as int)
            * 60;
        let ride_thr = spec_ceiling_minutes(dims, "z2_ride"@, DEFAULT_RIDE_CEILING_MIN as int)
            * 60;
        TrainingFlags {
            volume_spike: context.atl matches Some(a) && context.ctl matches Some(c)
                && 10 * a > 84 * c,
            volume_drop: context.atl matches Some(a) && context.ctl matches Some(c)
                && 10 * a < 49 * c && 7 * c > 5000,
            high_fatigue: context.tsb matches Some(t) && t < -2000,
            peak_form: context.tsb matches Some(t) && t > 500 && t < 1500,
            long_run_gap: spec_any_kind(ws, today, 21, KindSel::Run) && !spec_any_at_least(
                ws,
                today,
                21,
                KindSel::Run,
                run_thr,
            ),
            long_ride_gap: spec_any_kind(ws, today, 21, KindSel::Ride) && !spec_any_at_least(
                ws,
                today,
                21,
                KindSel::Ride,
                ride_thr,
            ),
            intensity_heavy: context.intensity_distribution.z3_pct
                + context.intensity_distribution.z4_pct + context.intensity_distribution.z5_pct
                > 4000,
            polarized_training: context.intensity_distribution.z1_pct
                + context.intensity_distribution.z2_pct > 8000,
        }
    }

    /// Compute the training flags from the workout history, the rolling
    /// context and the progression dimensions. The settings are accepted
    /// for signature stability; no flag currently reads them.
    pub fn compute(
        workouts: &Vec<WorkoutSummary>,
        context: &TrainingContext,
        _settings: &UserSettings,
        dimensions: &Vec<ProgressionDimension>,
        today: i64,
    ) -> (r: TrainingFlags)
        requires
            workouts_wf(workouts@),
            dims_wf(dimensions@),
            day_wf(today),
        ensures
            r == Self::spec_compute(workouts@, *context, dimensions@, today as int),
    {
        let volume_spike: bool;
        let volume_drop: bool;
        match (context.atl, context.ctl) {
            (Some(a), Some(c)) => {
                volume_spike = (a as i128) * 10 > (c as i128) * 84;
                volume_drop = (a as i128) * 10 < (c as i128) * 49 && (c as i128) * 7 > 5000;
            },
            _ => {
                volume_spike = false;
                volume_drop = false;
            },
        }

        let high_fatigue: bool;
        let peak_form: bool;
        match context.tsb {
            Some(t) => {
                high_fatigue = t < -2000;
                peak_form = t > 500 && t < 1500;
            },
            None => {
                high_fatigue = false;
                peak_form = false;
            },
        }

        let run_ceiling_min: i64 = ceiling_minutes(dimensions, "long_run",
            DEFAULT_LONG_RUN_CEILING_MIN);
        let ride_ceiling_min: i64 = ceiling_minutes(dimensions, "z2_ride",
            DEFAULT_RIDE_CEILING_MIN);
        let run_thr = run_ceiling_min * 60;
        let ride_thr = ride_ceiling_min * 60;

        let ghost all = workouts@;
        let n = workouts.len();
        let mut any_run = false;
        let mut any_long_run = false;
        let mut any_ride = false;
        let mut any_long_ride = false;
        let mut i: usize = 0;
        while i < n
            invariant
                i <= n,
                n == all.len(),
                workouts@ == all,
                workouts_wf(all),
                day_wf(today),
                any_run == spec_any_kind(all.take(i as int), today as int, 21, KindSel::Run),
                any_ride == spec_any_kind(all.take(i as int), today as int, 21, KindSel::Ride),
                any_long_run == spec_any_at_least(
                    all.take(i as int),
                    today as int,
                    21,
                    KindSel::Run,
                    run_thr as int,
                ),
                any_long_ride == spec_any_at_least(
                    all.take(i as int),
                    today as int,
                    21,
                    KindSel::Ride,
                    ride_thr as int,
                ),
            decreases n - i,
        {
            proof {
                assert(all[i as int].wf());
            }
            let w = &workouts[i];
            if today - w.started_day < 21 {
                let long_enough_run = match w.duration_seconds {
                    Some(d) => d >= run_thr,
                    None => false,
                };
                let long_enough_ride = match w.duration_seconds {
                    Some(d) => d >= ride_thr,
                    None => false,
                };
                if crate::text::is_run(w.activity_type.as_str()) {
                    any_run = true;
                    if long_enough_run {
                        any_long_run = true;
                    }
                } else if crate::text::is_ride(w.activity_type.as_str()) {
                    any_ride = true;
                    if long_enough_ride {
                        any_long_ride = true;
                    }
                }
            }
            proof {
                assert(all.take(i + 1).drop_last() =~= all.take(i as int));
                assert(all.take(i + 1).last() == all[i as int]);
                assert forall|k: KindSel, thr: int|
                    spec_any_at_least(all.take(i as int), today as int, 21, k, thr)
                        implies spec_any_at_least(
                        all.take(i + 1),
                        today as int,
                        21,
                        k,
                        thr,
                    ) by {
                    let j = choose|j: int|
                        0 <= j < all.take(i as int).len() && in_window(
                            #[trigger] all.take(i as int)[j],
                            today as int,
                            21,
                        ) && kind_matches(all.take(i as int)[j], k) && (all.take(
                            i as int,
                        )[j].duration_seconds matches Some(d)
                            && d >= thr);
                    assert(all.take(i + 1)[j] == all.take(i as int)[j]);
                }
                assert forall|k: KindSel|
                    spec_any_kind(all.take(i as int), today as int, 21, k) implies spec_any_kind(
                        all.take(i + 1),
                        today as int,
                        21,
                        k,
                    ) by {
                    let j = choose|j: int|
                        0 <= j < all.take(i as int).len() && in_window(
                            #[trigger] all.take(i as int)[j],
                            today as int,
                            21,
                        ) && kind_matches(all.take(i as int)[j], k);
                    assert(all.take(i + 1)[j] == all.take(i as int)[j]);
                }
                assert forall|k: KindSel, thr: int|
                    spec_any_at_least(all.take(i + 1), today as int, 21, k, thr) && !spec_any_at_least(
                        all.take(i as int),
                        today as int,
                        21,
                        k,
                        thr,
                    ) implies (in_window(all[i as int], today as int, 21) && kind_matches(
                        all[i as int],
                        k,
                    ) && (all[i as int].duration_seconds matches Some(d)
                        && d >= thr)) by {
                    let j = choose|j: int|
                        0 <= j < all.take(i + 1).len() && in_window(
                            #[trigger] all.take(i + 1)[j],
                            today as int,
                            21,
                        ) && kind_matches(all.take(i + 1)[j], k) && (all.take(
                            i + 1,
                        )[j].duration_seconds matches Some(d)
                            && d >= thr);
                    if j < i {
                        assert(all.take(i as int)[j] == all.take(i + 1)[j]);
                        assert(false);
                    }
                }
                assert forall|k: KindSel|
                    spec_any_kind(all.take(i + 1), today as int, 21, k) && !spec_any_kind(
                        all.take(i as int),
                        today as int,
                        21,
                        k,
                    ) implies (in_window(all[i as int], today as int, 21) && kind_matches(
                        all[i as int],
                        k,
                    )) by {
                    let j = choose|j: int|
                        0 <= j < all.take(i + 1).len() && in_window(
                            #[trigger] all.take(i + 1)[j],
                            today as int,
                            21,
                        ) && kind_matches(all.take(i + 1)[j], k);
                    if j < i {
                        assert(all.take(i as int)[j] == all.take(i + 1)[j]);
                        assert(false);
                    }
                }
                reveal_strlit("run");
                reveal_strlit("ride");
            }
            i = i + 1;
        }
        proof {
            assert(all.take(n as int) =~= all);
        }

        let id = &context.intensity_distribution;
        let intensity_heavy = (id.z3_pct as i128) + (id.z4_pct as i128) + (id.z5_pct as i128)
            > 4000;
        let polarized_training = (id.z1_pct as i128) + (id.z2_pct as i128) > 8000;

        TrainingFlags {
            volume_spike,
            volume_drop,
            high_fatigue,
            peak_form,
            long_run_gap: any_run && !any_long_run,
            long_ride_gap: any_ride && !any_long_ride,
            intensity_heavy,
            polarized_training,
        }
    }
}

/// An exec flag list carries exactly the entries of a spec flag list.
pub open spec fn entries_match(
    v: Seq<(String, u8, String)>,
    s: Seq<(Seq<char>, u8, Seq<char>)>,
) -> bool {
    &&& v.len() == s.len()
    &&& forall|i: int|
        0 <= i < v.len() ==> (#[trigger] v[i]).0@ == s[i].0 && v[i].1 == s[i].1 && v[i].2@
            == s[i].2
}

/// The flags as a list of (name, priority, description), highest priority
/// (lowest number) first: fatigue at 1, volume spike at 2, heavy intensity
/// at 3, session gaps at 4, the rest at 5.
pub open spec fn spec_prioritized(f: TrainingFlags) -> Seq<(Seq<char>, u8, Seq<char>)> {
    let s = Seq::<(Seq<char>, u8, Seq<char>)>::empty();
    let s = if f.high_fatigue {
        s.push(("high_fatigue"@, 1u8, "TSB indicates accumulated fatigue (< -20)"@))
    } else {
        s
    };
    let s = if f.volume_spike {
        s.push(("volume_spike"@, 2u8, "Training volume significantly above chronic average"@))
    } else {
        s
    };
    let s = if f.intensity_heavy {
        s.push(("intensity_heavy"@, 3u8, ">40% of training in Z3+"@))
    } else {
        s
    };
    let s = if f.long_run_gap {
        s.push(("long_run_gap"@, 4u8, "No run at ceiling duration in 3 weeks"@))
    } else {
        s
    };
    let s = if f.long_ride_gap {
        s.push(("long_ride_gap"@, 4u8, "No ride at ceiling duration in 3 weeks"@))
    } else {
        s
    };
    let s = if f.volume_drop {
        s.push(("volume_drop"@, 5u8, "Training volume significantly below chronic average"@))
    } else {
        s
    };
    let s = if f.peak_form {
        s.push(("peak_form"@, 5u8, "TSB indicates good racing form (+5 to +15)"@))
    } else {
        s
    };
    let s = if f.polarized_training {
        s.push(("polarized_training"@, 5u8, "Good - >80% in Z1-Z2 aerobic zones"@))
    } else {
        s
    };
    s
}

impl TrainingFlags {
    /// Convert the flags to a prioritized list of (name, priority,
    /// description); priority 1 is highest and the list is in priority
    /// order.
    #[verifier::rlimit(100)]
    #[verifier::spinoff_prover]
    pub fn to_prioritized_list(&self) -> (r: Vec<(String, u8, String)>)
        ensures
            entries_match(r@, spec_prioritized(*self)),
    {
        let mut r: Vec<(String, u8, String)> = Vec::new();
        let ghost mut g: Seq<(Seq<char>, u8, Seq<char>)> = Seq::empty();
        if self.high_fatigue {
            r.push((
                String::from_str("high_fatigue"),
                1,
                String::from_str("TSB indicates accumulated fatigue (< -20)"),
            ));
            proof {
                g = g.push(("high_fatigue"@, 1u8, "TSB indicates accumulated fatigue (< -20)"@));
                assert(entries_match(r@, g));
            }
        }
        if self.volume_spike {
            r.push((
                String::from_str("volume_spike"),
                2,
                String::from_str("Training volume significantly above chronic average"),
            ));
            proof {
                g = g.push(
                    ("volume_spike"@, 2u8, "Training volume significantly above chronic average"@),
                );
                assert(entries_match(r@, g));
            }
        }
        if self.intensity_heavy {
            r.push((
                String::from_str("intensity_heavy"),
                3,
                String::from_str(">40% of training in Z3+"),
            ));
            proof {
                g = g.push(("intensity_heavy"@, 3u8, ">40% of training in Z3+"@));
                assert(entries_match(r@, g));
            }
        }
        if self.long_run_gap {
            r.push((
                String::from_str("long_run_gap"),
                4,
                String::from_str("No run at ceiling duration in 3 weeks"),
            ));
            proof {
                g = g.push(("long_run_gap"@, 4u8, "No run at ceiling duration in 3 weeks"@));
                assert(entries_match(r@, g));
            }
        }
        if self.long_ride_gap {
            r.push((
                String::from_str("long_ride_gap"),
                4,
                String::from_str("No ride at ceiling duration in 3 weeks"),
            ));
            proof {
                g = g.push(("long_ride_gap"@, 4u8, "No ride at ceiling duration in 3 weeks"@));
                assert(entries_match(r@, g));
            }
        }
        if self.volume_drop {
            r.push((
                String::from_str("volume_drop"),
                5,
                String::from_str("Training volume significantly below chronic average"),
            ));
            proof {
                g = g.push(
                    ("volume_drop"@, 5u8, "Training volume significantly below chronic average"@),
                );
                assert(entries_match(r@, g));
            }
        }
        if self.peak_form {
            r.push((
                String::from_str("peak_form"),
                5,
                String::from_str("TSB indicates good racing form (+5 to +15)"),
            ));
            proof {
                g = g.push(("peak_form"@, 5u8, "TSB indicates good racing form (+5 to +15)"@));
                assert(entries_match(r@, g));
            }
        }
        if self.polarized_training {
            r.push((
                String::from_str("polarized_training"),
                5,
                String::from_str("Good - >80% in Z1-Z2 aerobic zones"),
            ));
            proof {
                g = g.push(("polarized_training"@, 5u8, "Good - >80% in Z1-Z2 aerobic zones"@));
                assert(entries_match(r@, g));
            }
        }
        proof {
            assert(g == spec_prioritized(*self));
            assert(entries_match(r@, g));
        }
        r
    }

    /// The prioritized list rendered as "name: description" lines.
    pub fn to_string_list(&self) -> (r: Vec<String>)
        ensures
            r@.len() == spec_prioritized(*self).len(),
            forall|i: int|
                0 <= i < r@.len() ==> (#[trigger] r@[i])@ == spec_prioritized(*self)[i].0 + ": "@
                    + spec_prioritized(*self)[i].2,
    {
        let list = self.to_prioritized_list();
        let mut r: Vec<String> = Vec::new();
        let n = list.len();
        let mut i: usize = 0;
        while i < n
            invariant
                i <= n,
                n == list@.len(),
                entries_match(list@, spec_prioritized(*self)),
                r@.len() == i,
                forall|j: int|
                    0 <= j < i ==> (#[trigger] r@[j])@ == spec_prioritized(*self)[j].0 + ": "@
                        + spec_prioritized(*self)[j].2,
            decreases n - i,
        {
            let entry = &list[i];
            let mut s = entry.0.clone();
            s.append(": ");
            s.append(entry.2.as_str());
            r.push(s);
            i = i + 1;
        }
        r
    }
}

/// Look up a dimension's ceiling in whole minutes, with a default for a
/// missing dimension or a non-numeric ceiling.
fn ceiling_minutes(dims: &Vec<ProgressionDimension>, name: &str, default: i64) -> (r: i64)
    requires
        dims_wf(dims@),
        0 < default <= crate::step::MAX_STEP_MINUTES as int,
    ensures
        r == spec_ceiling_minutes(dims@, name@, default as int),
        0 < r <= crate::step::MAX_STEP_MINUTES as int,
{
    match find_dimension(dims, name) {
        Some(i) => {
            proof {
                assert(dims@[i as int].wf());
            }
            match &dims[i].ceiling_value {
                DimensionValue::Minutes(m) => *m as i64,
                DimensionValue::Token(_) => default,
            }
        },
        None => default,
    }
}

} // verus!
