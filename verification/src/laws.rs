//! The engine's cross-cutting guarantees, stated and proved once: the
//! first-data-week convention of the volume delta, the determinism of the
//! calculators, the ceiling bound under arbitrary progress/regress
//! sequences, the overlap rule, and the regression gate.

use vstd::prelude::*;
use crate::adherence::AdherenceSummary;
use crate::context::{spec_hours_sum, KindSel, TrainingContext, WorkoutSummary};
use crate::dimension::{lemma_member_token_index, lemma_regressed_value_matches,
    lemma_stepped_value_matches, DimensionType, LifecycleStatus, ProgressionDimension};
use crate::engine::{spec_decision, EngineDecision};
use crate::flags::TrainingFlags;
use crate::metrics::WorkoutMetrics;
use crate::settings::UserSettings;
use crate::step::{token_index, DimensionValue, StepConfig};

verus! {

/// Week-over-week delta is exactly +100% whenever the prior week had no
/// volume and this week has some: a first-data-week convention, not a
/// division guard.
pub proof fn lemma_week_delta_plus_hundred(
    ws: Seq<WorkoutSummary>,
    settings: UserSettings,
    today: int,
)
    requires
        spec_hours_sum(ws, today, 7, 14, KindSel::All) == 0,
        spec_hours_sum(ws, today, i64::MIN as int, 7, KindSel::All) > 0,
    ensures
        TrainingContext::spec_compute(ws, settings, today).week_over_week_delta_pct == Some(
            10000i64,
        ),
{
}

/// The metric calculator is a function of its inputs: two results of the
/// same call are the same value.
pub proof fn lemma_metric_calculator_deterministic(
    r1: WorkoutMetrics,
    r2: WorkoutMetrics,
    activity_type: Seq<char>,
    duration_seconds: Option<i64>,
    distance_meters: Option<i64>,
    average_hr: Option<i64>,
    average_watts: Option<i64>,
    settings: UserSettings,
)
    requires
        r1 == WorkoutMetrics::spec_compute(
            activity_type,
            duration_seconds,
            distance_meters,
            average_hr,
            average_watts,
            settings,
        ),
        r2 == WorkoutMetrics::spec_compute(
            activity_type,
            duration_seconds,
            distance_meters,
            average_hr,
            average_watts,
            settings,
        ),
    ensures
        r1 == r2,
{
}

/// The rolling aggregator is a function of its inputs: two results of
/// the same call are the same value.
pub proof fn lemma_aggregator_deterministic(
    r1: TrainingContext,
    r2: TrainingContext,
    ws: Seq<WorkoutSummary>,
    settings: UserSettings,
    today: int,
)
    requires
        r1 == TrainingContext::spec_compute(ws, settings, today),
        r2 == TrainingContext::spec_compute(ws, settings, today),
    ensures
        r1 == r2,
{
}

/// The current value stands at or below the ceiling in the step
/// configuration's own ordering: by list position for sequences,
/// numerically for ramps, vacuously for regulated dimensions.
pub open spec fn within_ceiling(dim: ProgressionDimension) -> bool {
    match dim.step_config {
        StepConfig::Sequence { sequence } => {
            let c = match dim.current_value {
                DimensionValue::Token(t) => token_index(sequence@, t@),
                _ => -1,
            };
            let l = match dim.ceiling_value {
                DimensionValue::Token(t) => token_index(sequence@, t@),
                _ => -1,
            };
            c <= l
        },
        StepConfig::Increment { .. } => {
            match (dim.current_value, dim.ceiling_value) {
                (DimensionValue::Minutes(c), DimensionValue::Minutes(l)) => c <= l,
                _ => false,
            }
        },
        StepConfig::Regulated { .. } => true,
    }
}

/// For ramp dimensions the gap to the ceiling is a whole number of
/// steps, so stepping never jumps across the ceiling. Other
/// configurations need no such condition.
pub open spec fn step_aligned(dim: ProgressionDimension) -> bool {
    match dim.step_config {
        StepConfig::Increment { increment, .. } => {
            match (dim.current_value, dim.ceiling_value) {
                (DimensionValue::Minutes(c), DimensionValue::Minutes(l)) => (l - c) % (
                increment as int) == 0,
                _ => false,
            }
        },
        _ => true,
    }
}

/// One progress or regress attempt, as the decision engine applies them.
#[derive(Debug, Clone, Copy, PartialEq, Eq, Structural)]
pub enum StepOp {
    /// Try to advance one step.
    Progress,
    /// Try to step back one step.
    Regress,
}

/// The state after one attempted mutation on day `today`: the successor
/// state on success, the same state when the mutation fails.
pub open spec fn apply_op(dim: ProgressionDimension, op: StepOp, today: int)
    -> ProgressionDimension {
    match op {
        StepOp::Progress => match dim.spec_next_value() {
            Some(nv) => dim.spec_after_progression(nv, today),
            None => dim,
        },
        StepOp::Regress => match dim.spec_prev_value() {
            Some(pv) => dim.spec_after_regression(pv, today),
            None => dim,
        },
    }
}

/// The state after a whole sequence of attempted mutations.
pub open spec fn apply_ops(dim: ProgressionDimension, ops: Seq<StepOp>, today: int)
    -> ProgressionDimension
    decreases ops.len(),
{
    if ops.len() == 0 {
        dim
    } else {
        apply_op(apply_ops(dim, ops.drop_last(), today), ops.last(), today)
    }
}

/// A positive multiple of a positive step is at least the step.
proof fn lemma_gap_at_least_step(d: int, step: int)
    requires
        d > 0,
        step > 0,
        d % step == 0,
    ensures
        d >= step,
{
    vstd::arithmetic::div_mod::lemma_fundamental_div_mod(d, step);
    let q = d / step;
    if q <= 0 {
        assert(step * q <= 0) by (nonlinear_arith)
            requires step > 0, q <= 0;
        assert(false);
    }
    assert(step * q >= step) by (nonlinear_arith)
        requires step > 0, q >= 1;
}

/// One attempted progress or regress keeps the dimension well-formed,
/// step-aligned, and at or below its ceiling.
pub proof fn lemma_op_preserves_ceiling(dim: ProgressionDimension, op: StepOp, today: int)
    requires
        dim.wf(),
        step_aligned(dim),
        within_ceiling(dim),
        crate::clock::day_wf(today as i64),
        -crate::clock::MAX_EPOCH_DAY <= today <= crate::clock::MAX_EPOCH_DAY,
    ensures
        apply_op(dim, op, today).wf(),
        step_aligned(apply_op(dim, op, today)),
        within_ceiling(apply_op(dim, op, today)),
        apply_op(dim, op, today).step_config == dim.step_config,
        apply_op(dim, op, today).ceiling_value == dim.ceiling_value,
{
    let post = apply_op(dim, op, today);
    match op {
        StepOp::Progress => {
            match dim.spec_next_value() {
                Some(nv) => {
                    lemma_stepped_value_matches(dim, nv);
                    assert(!dim.spec_is_at_ceiling());
                    match dim.step_config {
                        StepConfig::Sequence { sequence } => {
                            match (dim.current_value, dim.ceiling_value) {
                                (DimensionValue::Token(t), DimensionValue::Token(ct)) => {
                                    let i = token_index(sequence@, t@);
                                    let l = token_index(sequence@, ct@);
                                    crate::step::lemma_token_index_props(sequence@, t@);
                                    assert(i < l);
                                    match nv {
                                        DimensionValue::Token(nt) => {
                                            lemma_member_token_index(sequence@, i + 1);
                                        },
                                        _ => (),
                                    }
                                },
                                _ => (),
                            }
                        },
                        StepConfig::Increment { increment, .. } => {
                            match (dim.current_value, dim.ceiling_value) {
                                (DimensionValue::Minutes(c), DimensionValue::Minutes(l)) => {
                                    assert(c < l);
                                    lemma_gap_at_least_step(l - c, increment as int);
                                    assert((l - (c + increment)) % (increment as int) == 0) by {
                                        vstd::arithmetic::div_mod::lemma_mod_sub_multiples_vanish(
                                            l - c,
                                            increment as int,
                                        );
                                    }
                                },
                                _ => (),
                            }
                        },
                        StepConfig::Regulated { .. } => (),
                    }
                },
                None => (),
            }
        },
        StepOp::Regress => {
            match dim.spec_prev_value() {
                Some(pv) => {
                    lemma_regressed_value_matches(dim, pv);
                    match dim.step_config {
                        StepConfig::Sequence { sequence } => {
                            match (dim.current_value, dim.ceiling_value) {
                                (DimensionValue::Token(t), DimensionValue::Token(ct)) => {
                                    let i = token_index(sequence@, t@);
                                    crate::step::lemma_token_index_props(sequence@, t@);
                                    match pv {
                                        DimensionValue::Token(nt) => {
                                            if i >= 1 {
                                                lemma_member_token_index(sequence@, i - 1);
                                            }
                                        },
                                        _ => (),
                                    }
                                },
                                _ => (),
                            }
                        },
                        StepConfig::Increment { increment, .. } => {
                            match (dim.current_value, dim.ceiling_value) {
                                (DimensionValue::Minutes(c), DimensionValue::Minutes(l)) => {
                                    assert((l - (c - increment)) % (increment as int) == 0) by {
                                        vstd::arithmetic::div_mod::lemma_mod_add_multiples_vanish(
                                            l - c,
                                            increment as int,
                                        );
                                    }
                                },
                                _ => (),
                            }
                        },
                        StepConfig::Regulated { .. } => (),
                    }
                },
                None => (),
            }
        },
    }
}

/// Under every sequence of progress and regress attempts, the current
/// value never exceeds the ceiling in the step configuration's ordering.
/// For ramp dimensions this holds when the starting gap to the ceiling
/// is a whole number of steps; a misaligned ramp can overshoot by part
/// of one step, which the engine then reports as at the ceiling.
pub proof fn lemma_ops_never_exceed_ceiling(
    dim: ProgressionDimension,
    ops: Seq<StepOp>,
    today: int,
)
    requires
        dim.wf(),
        step_aligned(dim),
        within_ceiling(dim),
        -crate::clock::MAX_EPOCH_DAY <= today <= crate::clock::MAX_EPOCH_DAY,
    ensures
        apply_ops(dim, ops, today).wf(),
        step_aligned(apply_ops(dim, ops, today)),
        within_ceiling(apply_ops(dim, ops, today)),
    decreases ops.len(),
{
    if ops.len() > 0 {
        lemma_ops_never_exceed_ceiling(dim, ops.drop_last(), today);
        lemma_op_preserves_ceiling(apply_ops(dim, ops.drop_last(), today), ops.last(), today);
    }
}

/// The overlap rule: when another dimension progressed fewer than seven
/// days ago, an otherwise-eligible progressive dimension is held for
/// now, never allowed to progress.
pub proof fn lemma_overlap_rule_holds(
    dim: ProgressionDimension,
    context: TrainingContext,
    flags: TrainingFlags,
    adherence: AdherenceSummary,
    last_prog: Option<(String, i64)>,
    days_since_any: int,
    today: int,
)
    requires
        dim.spec_dimension_type() == DimensionType::Progressive,
        !dim.spec_should_regress(today),
        !(adherence.spec_should_consider_regression() && dim.spec_prev_value() is Some),
        !dim.spec_is_at_ceiling(),
        !adherence.spec_is_unstable(),
        adherence.key_adherence_good,
        last_prog matches Some(p) && p.0@ != dim.name@,
        days_since_any < crate::engine::MIN_DAYS_BETWEEN_CHANGES,
    ensures
        spec_decision(dim, context, flags, adherence, last_prog, days_since_any, today)
            == EngineDecision::HoldForNow,
{
}

/// The regression gate fires: a dimension at its ceiling whose last
/// touch is 21 or more days old is told to regress, whatever else holds.
pub proof fn lemma_regression_gate_fires(
    dim: ProgressionDimension,
    context: TrainingContext,
    flags: TrainingFlags,
    adherence: AdherenceSummary,
    last_prog: Option<(String, i64)>,
    days_since_any: int,
    today: int,
    touch: i64,
)
    requires
        dim.spec_dimension_type() == DimensionType::Progressive,
        dim.status == LifecycleStatus::AtCeiling,
        dim.last_ceiling_touch_at == Some(touch),
        today - touch >= crate::dimension::REGRESSION_GAP_DAYS,
    ensures
        spec_decision(dim, context, flags, adherence, last_prog, days_since_any, today)
            == EngineDecision::Regress,
{
}

/// A recent ceiling touch blocks the regression gate outright: whatever
/// the dimension's lifecycle status, values, context and flags, a
/// progressive dimension whose last touch is fresher than the gap
/// threshold is never told to regress — unless the separate
/// low-adherence trigger fires, which the decision precedence puts above
/// the ceiling branch.
pub proof fn lemma_recent_touch_blocks_regression(
    dim: ProgressionDimension,
    context: TrainingContext,
    flags: TrainingFlags,
    adherence: AdherenceSummary,
    last_prog: Option<(String, i64)>,
    days_since_any: int,
    today: int,
    touch: i64,
)
    requires
        dim.spec_dimension_type() == DimensionType::Progressive,
        dim.last_ceiling_touch_at == Some(touch),
        today - touch < crate::dimension::REGRESSION_GAP_DAYS,
        !adherence.spec_should_consider_regression(),
    ensures
        spec_decision(dim, context, flags, adherence, last_prog, days_since_any, today)
            != EngineDecision::Regress,
{
}

/// The regression gate stays shut: with a recent ceiling touch and no
/// low-adherence run, a dimension at its ceiling is reported as at the
/// ceiling or due for maintenance, never told to regress.
pub proof fn lemma_recent_touch_never_regresses(
    dim: ProgressionDimension,
    context: TrainingContext,
    flags: TrainingFlags,
    adherence: AdherenceSummary,
    last_prog: Option<(String, i64)>,
    days_since_any: int,
    today: int,
    touch: i64,
)
    requires
        dim.spec_dimension_type() == DimensionType::Progressive,
        dim.spec_is_at_ceiling(),
        dim.last_ceiling_touch_at == Some(touch),
        today - touch < crate::dimension::REGRESSION_GAP_DAYS,
        !adherence.spec_should_consider_regression(),
    ensures
        spec_decision(dim, context, flags, adherence, last_prog, days_since_any, today)
            == EngineDecision::MaintenanceDue || spec_decision(
            dim,
            context,
            flags,
            adherence,
            last_prog,
            days_since_any,
            today,
        ) == EngineDecision::AtCeiling,
{
}

} // verus!
