//! The progression decision engine: a per-dimension state machine that
//! weighs regression triggers, ceilings, adherence gates, the
//! cross-dimension overlap rule and per-dimension criteria, in that order,
//! and emits one decision with its rationale per dimension.
//!
//! The batch computation is total: a situation that would otherwise be an
//! error resolves to a conservative hold, never a failure of the batch.

use vstd::prelude::*;
use crate::adherence::AdherenceSummary;
use crate::clock::day_wf;
use crate::context::TrainingContext;
use crate::dimension::{dims_wf, DimensionType, LifecycleStatus, ProgressionDimension};
use crate::flags::TrainingFlags;
use crate::step::DimensionValue;
use crate::text::{centi_str_1dp, dec_str_signed, spec_join_comma, str_eq};

verus! {

/// Days that must pass after any dimension's progression before another
/// may progress (the overlap rule), and the least days since a dimension's
/// own last change before it may progress again.
pub const MIN_DAYS_BETWEEN_CHANGES: i64 = 7;

/// TSB floor in hundredths for the run-interval and long-run dimensions.
pub const TSB_FLOOR_RUN_CENTI: i64 = -1500;

/// TSB floor in hundredths for every other progressive dimension.
pub const TSB_FLOOR_DEFAULT_CENTI: i64 = -1000;

/// What the engine allows for one dimension.
#[derive(Debug, Clone, Copy, PartialEq, Eq, Structural)]
pub enum EngineDecision {
    /// Criteria met; the dimension may advance.
    ProgressAllowed,
    /// At the maximum; maintenance mode.
    AtCeiling,
    /// At the ceiling and due to touch it soon.
    MaintenanceDue,
    /// Criteria met but blocked by the overlap rule or an unstable week.
    HoldForNow,
    /// The week had under 70% adherence.
    HoldDueToUnstableWeek,
    /// A key session was missed this week.
    HoldDueToMissedKeySession,
    /// The dimension's own criteria are unmet.
    Hold,
    /// Step back due to detraining.
    Regress,
    /// The dimension is regulated, not progressive.
    Regulated,
}

impl EngineDecision {
    /// The decision's storage name.
    pub open spec fn spec_str(self) -> Seq<char> {
        match self {
            EngineDecision::ProgressAllowed => "progress_allowed"@,
            EngineDecision::AtCeiling => "at_ceiling"@,
            EngineDecision::MaintenanceDue => "maintenance_due"@,
            EngineDecision::HoldForNow => "hold_for_now"@,
            EngineDecision::HoldDueToUnstableWeek => "hold_due_to_unstable_week"@,
            EngineDecision::HoldDueToMissedKeySession => "hold_due_to_missed_key_session"@,
            EngineDecision::Hold => "hold"@,
            EngineDecision::Regress => "regress"@,
            EngineDecision::Regulated => "regulated"@,
        }
    }

    /// The decision's storage name.
    pub fn as_str(&self) -> (r: &'static str)
        ensures
            r@ == self.spec_str(),
    {
        match self {
            EngineDecision::ProgressAllowed => "progress_allowed",
            EngineDecision::AtCeiling => "at_ceiling",
            EngineDecision::MaintenanceDue => "maintenance_due",
            EngineDecision::HoldForNow => "hold_for_now",
            EngineDecision::HoldDueToUnstableWeek => "hold_due_to_unstable_week",
            EngineDecision::HoldDueToMissedKeySession => "hold_due_to_missed_key_session",
            EngineDecision::Hold => "hold",
            EngineDecision::Regress => "regress",
            EngineDecision::Regulated => "regulated",
        }
    }
}

/// The dimension counts as the week's key session.
pub open spec fn spec_is_key_session_dimension(name: Seq<char>) -> bool {
    name == "long_run"@
}

/// Whether a dimension is the week's key session, by name.
pub fn is_key_session_dimension(name: &str) -> (r: bool)
    ensures
        r == spec_is_key_session_dimension(name@),
{
    str_eq(name, "long_run")
}

/// The display form of a dimension value: the minutes in decimal, or the
/// token itself.
pub open spec fn spec_value_str(v: DimensionValue) -> Seq<char> {
    match v {
        DimensionValue::Minutes(m) => dec_str_signed(m as int),
        DimensionValue::Token(t) => t@,
    }
}

/// Render a dimension value for display.
pub fn value_to_string(v: &DimensionValue) -> (s: String)
    ensures
        s@ == spec_value_str(*v),
{
    match v {
        DimensionValue::Minutes(m) => crate::text::i64_to_string(*m as i64),
        DimensionValue::Token(t) => t.clone(),
    }
}

/// Status of one progression track: the decision and everything a
/// renderer needs to explain it.
#[derive(Debug, Clone, PartialEq)]
pub struct DimensionStatus {
    /// The dimension's name.
    pub name: String,
    /// Progressive or regulated.
    pub dimension_type: DimensionType,
    /// Current value.
    pub current: DimensionValue,
    /// Ceiling value.
    pub ceiling: DimensionValue,
    /// Lifecycle state (regulated dimensions report at-ceiling).
    pub status: LifecycleStatus,
    /// What the engine allows.
    pub engine_decision: EngineDecision,
    /// The rationale, verbatim for the renderer.
    pub reason: String,
    /// The value a progression would move to, when one exists.
    pub next_value: Option<DimensionValue>,
    /// Days since the dimension last changed.
    pub days_since_change: i64,
    /// Maintenance is due at the ceiling.
    pub maintenance_due: bool,
    /// For regulated dimensions: the recommended duration in minutes.
    pub regulated_duration: Option<i32>,
}

/// Aggregate output of one evaluation: one status per dimension plus
/// cross-dimension bookkeeping and the week's adherence.
#[derive(Debug, Clone, PartialEq)]
pub struct ProgressionSummary {
    /// One status per dimension, in input order.
    pub dimensions: Vec<DimensionStatus>,
    /// Name of the dimension that progressed most recently.
    pub last_progression_dimension: Option<String>,
    /// Days since any dimension progressed; 30 when none ever did.
    pub days_since_any_progression: i64,
    /// The week's adherence.
    pub adherence: AdherenceSummary,
}

/// The most recent change among the dimensions: the name and day of the
/// latest `last_change_at`, a later entry winning ties.
pub open spec fn spec_most_recent(dims: Seq<ProgressionDimension>) -> Option<(String, i64)>
    decreases dims.len(),
{
    if dims.len() == 0 {
        None
    } else {
        let rest = spec_most_recent(dims.drop_last());
        let d = dims.last();
        match d.last_change_at {
            None => rest,
            Some(t) => match rest {
                None => Some((d.name, t)),
                Some(p) => if t >= p.1 {
                    Some((d.name, t))
                } else {
                    rest
                },
            },
        }
    }
}

/// The dimension is blocked by the overlap rule: another dimension
/// progressed within the last seven days.
pub open spec fn spec_overlap_blocked(
    name: Seq<char>,
    last_prog: Option<(String, i64)>,
    days_since_any: int,
) -> bool {
    match last_prog {
        Some(p) => p.0@ != name && days_since_any < MIN_DAYS_BETWEEN_CHANGES,
        None => false,
    }
}

/// The dimension's own progression criteria: at least seven days since
/// its last change, volume neither spiking nor dropping, TSB above the
/// dimension's floor (-15 for run-interval and long-run, -10 otherwise;
/// an absent TSB passes), and for run-interval no heavy intensity.
pub open spec fn spec_criteria_met(
    dim: ProgressionDimension,
    context: TrainingContext,
    flags: TrainingFlags,
    today: int,
) -> bool {
    let days = dim.spec_days_since_change(today);
    let volume_stable = !flags.volume_spike && !flags.volume_drop;
    let floor = spec_tsb_floor(dim.name@);
    let fatigue_low = match context.tsb {
        Some(t) => t > floor,
        None => true,
    };
    let hr_stability = if dim.name@ == "run_interval"@ {
        !flags.intensity_heavy
    } else {
        true
    };
    days >= MIN_DAYS_BETWEEN_CHANGES && volume_stable && fatigue_low && hr_stability
}

/// The TSB floor of a dimension, in hundredths, by name.
pub open spec fn spec_tsb_floor(name: Seq<char>) -> int {
    if name == "run_interval"@ || name == "long_run"@ {
        TSB_FLOOR_RUN_CENTI as int
    } else {
        TSB_FLOOR_DEFAULT_CENTI as int
    }
}

/// The itemized reasons for unmet criteria, in order: waiting days, volume
/// instability, low TSB, intensity instability.
pub open spec fn spec_criteria_parts(
    dim: ProgressionDimension,
    context: TrainingContext,
    flags: TrainingFlags,
    today: int,
) -> Seq<Seq<char>> {
    let days = dim.spec_days_since_change(today);
    let volume_stable = !flags.volume_spike && !flags.volume_drop;
    let floor = spec_tsb_floor(dim.name@);
    let fatigue_low = match context.tsb {
        Some(t) => t > floor,
        None => true,
    };
    let hr_stability = if dim.name@ == "run_interval"@ {
        !flags.intensity_heavy
    } else {
        true
    };
    let tsb_shown: int = match context.tsb {
        Some(t) => t as int,
        None => 0,
    };
    let s = Seq::<Seq<char>>::empty();
    let s = if days < MIN_DAYS_BETWEEN_CHANGES {
        s.push(dec_str_signed(days) + " days since last change (need 7)"@)
    } else {
        s
    };
    let s = if !volume_stable {
        s.push("volume unstable"@)
    } else {
        s
    };
    let s = if !fatigue_low {
        s.push(
            "TSB too low ("@ + centi_str_1dp(tsb_shown) + ", need > "@ + (if floor
                == TSB_FLOOR_RUN_CENTI as int {
                "-15.0"@
            } else {
                "-10.0"@
            }) + ")"@,
        )
    } else {
        s
    };
    let s = if !hr_stability {
        s.push("HR/intensity unstable"@)
    } else {
        s
    };
    s
}

/// The criteria verdict's rationale: "All criteria met", or the itemized
/// reasons joined with commas.
pub open spec fn spec_criteria_reason(
    dim: ProgressionDimension,
    context: TrainingContext,
    flags: TrainingFlags,
    today: int,
) -> Seq<char> {
    if spec_criteria_met(dim, context, flags, today) {
        "All criteria met"@
    } else {
        spec_join_comma(spec_criteria_parts(dim, context, flags, today))
    }
}

/// The decision for one progressive dimension, first match winning:
/// ceiling-gap regression; low-adherence regression when a previous value
/// exists; at the ceiling, maintenance or rest; unstable week; missed key
/// session for the key dimension; the overlap rule; unmet own criteria;
/// a not fully stable week; else progression is allowed.
pub open spec fn spec_decision(
    dim: ProgressionDimension,
    context: TrainingContext,
    flags: TrainingFlags,
    adherence: AdherenceSummary,
    last_prog: Option<(String, i64)>,
    days_since_any: int,
    today: int,
) -> EngineDecision {
    if dim.spec_dimension_type() == DimensionType::Regulated {
        EngineDecision::Regulated
    } else if dim.spec_should_regress(today) {
        EngineDecision::Regress
    } else if adherence.spec_should_consider_regression() && dim.spec_prev_value() is Some {
        EngineDecision::Regress
    } else if dim.spec_is_at_ceiling() {
        if dim.spec_maintenance_due(today) {
            EngineDecision::MaintenanceDue
        } else {
            EngineDecision::AtCeiling
        }
    } else if adherence.spec_is_unstable() {
        EngineDecision::HoldDueToUnstableWeek
    } else if !adherence.key_adherence_good && spec_is_key_session_dimension(dim.name@) {
        EngineDecision::HoldDueToMissedKeySession
    } else if spec_overlap_blocked(dim.name@, last_prog, days_since_any) {
        EngineDecision::HoldForNow
    } else if !spec_criteria_met(dim, context, flags, today) {
        EngineDecision::Hold
    } else if !adherence.week_stable {
        EngineDecision::HoldForNow
    } else {
        EngineDecision::ProgressAllowed
    }
}

/// The fatigue wording of a regulated dimension's rationale.
pub open spec fn spec_regulated_desc(tsb: Option<i64>) -> Seq<char> {
    match tsb {
        Some(t) => if t >= 0 {
            "fresh"@
        } else if t >= -1000 {
            "moderate fatigue"@
        } else {
            "fatigued"@
        },
        None => "unknown fatigue"@,
    }
}

/// The rationale that accompanies each decision.
pub open spec fn spec_reason(
    dim: ProgressionDimension,
    context: TrainingContext,
    flags: TrainingFlags,
    adherence: AdherenceSummary,
    last_prog: Option<(String, i64)>,
    days_since_any: int,
    today: int,
) -> Seq<char> {
    if dim.spec_dimension_type() == DimensionType::Regulated {
        let duration: int = match dim.step_config.spec_regulated_duration(context.tsb) {
            Some(d) => d as int,
            None => 45,
        };
        "Duration regulated by TSB ("@ + spec_regulated_desc(context.tsb) + "): "@
            + dec_str_signed(duration) + " min recommended"@
    } else if dim.spec_should_regress(today) {
        let gap: int = match dim.last_ceiling_touch_at {
            Some(t) => today - t,
            None => 0,
        };
        "Haven't touched ceiling in "@ + dec_str_signed(gap) + " days, stepping back"@
    } else if adherence.spec_should_consider_regression() && dim.spec_prev_value() is Some {
        dec_str_signed(adherence.consecutive_low_adherence_weeks as int)
            + " consecutive low-adherence weeks"@
    } else if dim.spec_is_at_ceiling() {
        if dim.spec_maintenance_due(today) {
            "At ceiling ("@ + spec_value_str(dim.ceiling_value)
                + "), maintenance due - touch this level soon"@
        } else {
            "At ceiling ("@ + spec_value_str(dim.ceiling_value) + "), maintaining"@
        }
    } else if adherence.spec_is_unstable() {
        "Week had "@ + dec_str_signed(adherence.adherence_pct as int / 100)
            + "% adherence (need 70%)"@
    } else if !adherence.key_adherence_good && spec_is_key_session_dimension(dim.name@) {
        "Key session missed this week"@
    } else if spec_overlap_blocked(dim.name@, last_prog, days_since_any) {
        "Another dimension progressed "@ + dec_str_signed(days_since_any)
            + " days ago (need 7)"@
    } else if !spec_criteria_met(dim, context, flags, today) {
        spec_criteria_reason(dim, context, flags, today)
    } else if !adherence.week_stable {
        "Week not stable (missed sessions or low adherence)"@
    } else {
        "All criteria met"@
    }
}

/// The status record one dimension gets: every field pinned to the
/// dimension, the decision and the rationale.
pub open spec fn status_matches(
    st: DimensionStatus,
    dim: ProgressionDimension,
    context: TrainingContext,
    flags: TrainingFlags,
    adherence: AdherenceSummary,
    last_prog: Option<(String, i64)>,
    days_since_any: int,
    today: int,
) -> bool {
    let regulated = dim.spec_dimension_type() == DimensionType::Regulated;
    &&& st.name == dim.name
    &&& st.dimension_type == dim.spec_dimension_type()
    &&& st.current == dim.current_value
    &&& st.ceiling == dim.ceiling_value
    &&& st.status == if regulated {
        LifecycleStatus::AtCeiling
    } else {
        dim.status
    }
    &&& st.engine_decision == spec_decision(
        dim,
        context,
        flags,
        adherence,
        last_prog,
        days_since_any,
        today,
    )
    &&& st.reason@ == spec_reason(dim, context, flags, adherence, last_prog, days_since_any, today)
    &&& st.next_value == if regulated {
        None::<DimensionValue>
    } else {
        dim.spec_next_value()
    }
    &&& st.days_since_change == dim.spec_days_since_change(today)
    &&& st.maintenance_due == if regulated {
        false
    } else {
        dim.spec_maintenance_due(today)
    }
    &&& st.regulated_duration == if regulated {
        dim.step_config.spec_regulated_duration(context.tsb)
    } else {
        None::<i32>
    }
}

/// An adherence summary and a context whose numbers the reason strings
/// can render (far inside `i64`).
pub open spec fn inputs_renderable(context: TrainingContext, adherence: AdherenceSummary) -> bool {
    &&& (context.tsb matches Some(t) ==> i64::MIN < t)
    &&& 0 <= adherence.adherence_pct
}

impl ProgressionSummary {
    /// Compute the progression summary for all dimensions, as of `today`.
    pub fn compute(
        dimensions: &Vec<ProgressionDimension>,
        context: &TrainingContext,
        flags: &TrainingFlags,
        adherence: AdherenceSummary,
        today: i64,
    ) -> (r: ProgressionSummary)
        requires
            dims_wf(dimensions@),
            day_wf(today),
            inputs_renderable(*context, adherence),
        ensures
            r.dimensions@.len() == dimensions@.len(),
            forall|i: int|
                0 <= i < dimensions@.len() ==> status_matches(
                    #[trigger] r.dimensions@[i],
                    dimensions@[i],
                    *context,
                    *flags,
                    adherence,
                    spec_most_recent(dimensions@),
                    spec_days_since_any(spec_most_recent(dimensions@), today as int),
                    today as int,
                ),
            match (r.last_progression_dimension, spec_most_recent(dimensions@)) {
                (Some(n), Some(p)) => n == p.0,
                (None, None) => true,
                _ => false,
            },
            r.days_since_any_progression == spec_days_since_any(
                spec_most_recent(dimensions@),
                today as int,
            ),
            r.adherence == adherence,
    {
        let most_recent = find_most_recent(dimensions);
        let days_since_any: i64 = match &most_recent {
            Some(p) => today - p.1,
            None => crate::dimension::DEFAULT_DAYS_SINCE_CHANGE,
        };
        let last_name: Option<String> = match &most_recent {
            Some(p) => Some(p.0.clone()),
            None => None,
        };

        let mut statuses: Vec<DimensionStatus> = Vec::new();
        let n = dimensions.len();
        let mut i: usize = 0;
        while i < n
            invariant
                i <= n,
                n == dimensions@.len(),
                dims_wf(dimensions@),
                day_wf(today),
                inputs_renderable(*context, adherence),
                statuses@.len() == i,
                most_recent == spec_most_recent(dimensions@),
                (most_recent matches Some(p) ==> day_wf(p.1)),
                days_since_any == spec_days_since_any(
                    spec_most_recent(dimensions@),
                    today as int,
                ),
                forall|j: int|
                    0 <= j < i ==> status_matches(
                        #[trigger] statuses@[j],
                        dimensions@[j],
                        *context,
                        *flags,
                        adherence,
                        spec_most_recent(dimensions@),
                        spec_days_since_any(spec_most_recent(dimensions@), today as int),
                        today as int,
                    ),
            decreases n - i,
        {
            proof {
                assert(dimensions@[i as int].wf());
            }
            let st = build_dimension_status(
                &dimensions[i],
                context,
                flags,
                &adherence,
                &most_recent,
                days_since_any,
                today,
            );
            statuses.push(st);
            i = i + 1;
        }

        ProgressionSummary {
            dimensions: statuses,
            last_progression_dimension: last_name,
            days_since_any_progression: days_since_any,
            adherence,
        }
    }

    /// Get the status of a specific dimension by name.
    pub fn get_dimension(&self, name: &str) -> (r: Option<&DimensionStatus>)
        ensures
            match r {
                Some(st) => st.name@ == name@ && (exists|i: int|
                    0 <= i < self.dimensions@.len() && self.dimensions@[i] == *st),
                None => forall|i: int|
                    0 <= i < self.dimensions@.len() ==> (#[trigger] self.dimensions@[i]).name@
                        != name@,
            },
    {
        let n = self.dimensions.len();
        let mut i: usize = 0;
        while i < n
            invariant
                i <= n,
                n == self.dimensions@.len(),
                forall|j: int|
                    0 <= j < i ==> (#[trigger] self.dimensions@[j]).name@ != name@,
            decreases n - i,
        {
            if str_eq(self.dimensions[i].name.as_str(), name) {
                return Some(&self.dimensions[i]);
            }
            i = i + 1;
        }
        None
    }
}

/// Days since the most recent progression, defaulting to 30 when none
/// ever happened.
pub open spec fn spec_days_since_any(last_prog: Option<(String, i64)>, today: int) -> int {
    match last_prog {
        Some(p) => today - p.1,
        None => crate::dimension::DEFAULT_DAYS_SINCE_CHANGE as int,
    }
}

/// Find the most recently changed dimension: its name and change day.
fn find_most_recent(dimensions: &Vec<ProgressionDimension>) -> (r: Option<(String, i64)>)
    requires
        dims_wf(dimensions@),
    ensures
        r == spec_most_recent(dimensions@),
        r matches Some(p) ==> day_wf(p.1),
{
    let ghost all = dimensions@;
    let n = dimensions.len();
    let mut best: Option<(String, i64)> = None;
    let mut i: usize = 0;
    while i < n
        invariant
            i <= n,
            n == all.len(),
            dimensions@ == all,
            dims_wf(all),
            best == spec_most_recent(all.take(i as int)),
            best matches Some(p) ==> day_wf(p.1),
        decreases n - i,
    {
        proof {
            assert(all[i as int].wf());
        }
        let d = &dimensions[i];
        match d.last_change_at {
            Some(t) => {
                let take_it = match &best {
                    Some(p) => t >= p.1,
                    None => true,
                };
                if take_it {
                    best = Some((d.name.clone(), t));
                }
            },
            None => (),
        }
        proof {
            assert(all.take(i + 1).drop_last() =~= all.take(i as int));
            assert(all.take(i + 1).last() == all[i as int]);
        }
        i = i + 1;
    }
    proof {
        assert(all.take(n as int) =~= all);
    }
    best
}

/// Check a progressive dimension's own criteria, returning the verdict
/// and its itemized rationale.
fn check_criteria(
    dim: &ProgressionDimension,
    context: &TrainingContext,
    flags: &TrainingFlags,
    today: i64,
) -> (r: (bool, String))
    requires
        dim.wf(),
        day_wf(today),
        context.tsb matches Some(t) ==> i64::MIN < t,
    ensures
        r.0 == spec_criteria_met(*dim, *context, *flags, today as int),
        r.1@ == spec_criteria_reason(*dim, *context, *flags, today as int),
{
    let days = dim.days_since_change(today);
    let volume_stable = !flags.volume_spike && !flags.volume_drop;
    let is_run_floor = str_eq(dim.name.as_str(), "run_interval") || str_eq(
        dim.name.as_str(),
        "long_run",
    );
    let floor: i64 = if is_run_floor {
        TSB_FLOOR_RUN_CENTI
    } else {
        TSB_FLOOR_DEFAULT_CENTI
    };
    let fatigue_low = match context.tsb {
        Some(t) => t > floor,
        None => true,
    };
    let hr_stability = if str_eq(dim.name.as_str(), "run_interval") {
        !flags.intensity_heavy
    } else {
        true
    };
    let met = days >= MIN_DAYS_BETWEEN_CHANGES && volume_stable && fatigue_low && hr_stability;

    if met {
        return (true, String::from_str("All criteria met"));
    }

    let mut parts: Vec<String> = Vec::new();
    let ghost mut g: Seq<Seq<char>> = Seq::empty();
    if days < MIN_DAYS_BETWEEN_CHANGES {
        let mut s = crate::text::i64_to_string(days);
        s.append(" days since last change (need 7)");
        parts.push(s);
        proof {
            g = g.push(dec_str_signed(days as int) + " days since last change (need 7)"@);
            assert(parts@.map_values(|p: String| p@) =~= g);
        }
    }
    if !volume_stable {
        parts.push(String::from_str("volume unstable"));
        proof {
            g = g.push("volume unstable"@);
            assert(parts@.map_values(|p: String| p@) =~= g);
        }
    }
    if !fatigue_low {
        let tsb_shown: i64 = match context.tsb {
            Some(t) => t,
            None => 0,
        };
        let mut s = String::from_str("TSB too low (");
        s.append(crate::text::centi_to_string_1dp(tsb_shown).as_str());
        s.append(", need > ");
        s.append(if is_run_floor { "-15.0" } else { "-10.0" });
        s.append(")");
        parts.push(s);
        proof {
            g = g.push(
                "TSB too low ("@ + centi_str_1dp(tsb_shown as int) + ", need > "@ + (
                if spec_tsb_floor(dim.name@) == TSB_FLOOR_RUN_CENTI as int {
                    "-15.0"@
                } else {
                    "-10.0"@
                }) + ")"@,
            );
            assert(parts@.map_values(|p: String| p@) =~= g);
        }
    }
    if !hr_stability {
        parts.push(String::from_str("HR/intensity unstable"));
        proof {
            g = g.push("HR/intensity unstable"@);
            assert(parts@.map_values(|p: String| p@) =~= g);
        }
    }
    proof {
        assert(g == spec_criteria_parts(*dim, *context, *flags, today as int));
    }
    let joined = crate::text::join_comma(&parts);
    (false, joined)
}

/// Build the status record of one dimension.
fn build_dimension_status(
    dim: &ProgressionDimension,
    context: &TrainingContext,
    flags: &TrainingFlags,
    adherence: &AdherenceSummary,
    last_prog: &Option<(String, i64)>,
    days_since_any: i64,
    today: i64,
) -> (st: DimensionStatus)
    requires
        dim.wf(),
        day_wf(today),
        inputs_renderable(*context, *adherence),
        last_prog matches Some(p) ==> day_wf(p.1),
        days_since_any == spec_days_since_any(*last_prog, today as int),
    ensures
        status_matches(
            st,
            *dim,
            *context,
            *flags,
            *adherence,
            *last_prog,
            days_since_any as int,
            today as int,
        ),
{
    let dim_type = dim.dimension_type();

    if matches!(dim_type, DimensionType::Regulated) {
        let regulated_duration = dim.get_regulated_duration(context.tsb);
        let tsb_desc: &'static str = match context.tsb {
            Some(t) => if t >= 0 {
                "fresh"
            } else if t >= -1000 {
                "moderate fatigue"
            } else {
                "fatigued"
            },
            None => "unknown fatigue",
        };
        let shown: i64 = match regulated_duration {
            Some(d) => d as i64,
            None => 45,
        };
        let mut reason = String::from_str("Duration regulated by TSB (");
        reason.append(tsb_desc);
        reason.append("): ");
        reason.append(crate::text::i64_to_string(shown).as_str());
        reason.append(" min recommended");
        return DimensionStatus {
            name: dim.name.clone(),
            dimension_type: dim_type,
            current: dim.current_value.clone(),
            ceiling: dim.ceiling_value.clone(),
            status: LifecycleStatus::AtCeiling,
            engine_decision: EngineDecision::Regulated,
            reason,
            next_value: None,
            days_since_change: dim.days_since_change(today),
            maintenance_due: false,
            regulated_duration,
        };
    }

    let is_at_ceiling = dim.is_at_ceiling();
    let maintenance_due = dim.maintenance_due(today);
    let should_regress = dim.should_regress(today);
    let prev_exists = matches!(dim.prev_value(), Some(_));

    let criteria = check_criteria(dim, context, flags, today);
    let criteria_met = criteria.0;
    let criteria_reason = criteria.1;

    let overlap_blocked = match last_prog {
        Some(p) => !str_eq(p.0.as_str(), dim.name.as_str()) && days_since_any
            < MIN_DAYS_BETWEEN_CHANGES,
        None => false,
    };

    let decision: EngineDecision;
    let reason: String;
    if should_regress {
        let gap: i64 = match dim.last_ceiling_touch_at {
            Some(t) => today - t,
            None => 0,
        };
        let mut s = String::from_str("Haven't touched ceiling in ");
        s.append(crate::text::i64_to_string(gap).as_str());
        s.append(" days, stepping back");
        decision = EngineDecision::Regress;
        reason = s;
    } else if adherence.should_consider_regression() && prev_exists {
        let mut s = crate::text::i64_to_string(adherence.consecutive_low_adherence_weeks as i64);
        s.append(" consecutive low-adherence weeks");
        decision = EngineDecision::Regress;
        reason = s;
    } else if is_at_ceiling {
        if maintenance_due {
            let mut s = String::from_str("At ceiling (");
            s.append(value_to_string(&dim.ceiling_value).as_str());
            s.append("), maintenance due - touch this level soon");
            decision = EngineDecision::MaintenanceDue;
            reason = s;
        } else {
            let mut s = String::from_str("At ceiling (");
            s.append(value_to_string(&dim.ceiling_value).as_str());
            s.append("), maintaining");
            decision = EngineDecision::AtCeiling;
            reason = s;
        }
    } else if adherence.is_unstable() {
        let mut s = String::from_str("Week had ");
        s.append(crate::text::i64_to_string(adherence.adherence_pct / 100).as_str());
        s.append("% adherence (need 70%)");
        decision = EngineDecision::HoldDueToUnstableWeek;
        reason = s;
    } else if !adherence.key_adherence_good && is_key_session_dimension(dim.name.as_str()) {
        decision = EngineDecision::HoldDueToMissedKeySession;
        reason = String::from_str("Key session missed this week");
    } else if overlap_blocked {
        let mut s = String::from_str("Another dimension progressed ");
        s.append(crate::text::i64_to_string(days_since_any).as_str());
        s.append(" days ago (need 7)");
        decision = EngineDecision::HoldForNow;
        reason = s;
    } else if !criteria_met {
        decision = EngineDecision::Hold;
        reason = criteria_reason;
    } else if !adherence.week_stable {
        decision = EngineDecision::HoldForNow;
        reason = String::from_str("Week not stable (missed sessions or low adherence)");
    } else {
        decision = EngineDecision::ProgressAllowed;
        reason = String::from_str("All criteria met");
    }

    DimensionStatus {
        name: dim.name.clone(),
        dimension_type: dim_type,
        current: dim.current_value.clone(),
        ceiling: dim.ceiling_value.clone(),
        status: dim.status,
        engine_decision: decision,
        reason,
        next_value: dim.next_value(),
        days_since_change: dim.days_since_change(today),
        maintenance_due,
        regulated_duration: None,
    }
}

} // verus!
