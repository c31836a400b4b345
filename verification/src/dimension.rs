//! A progression dimension: one trainable axis with a current value, a
//! ceiling, a step configuration, a lifecycle status and timestamps, plus
//! the four mutations that the decision engine may apply to it.
//!
//! Mutations are pure state transitions: each either changes the dimension
//! and yields one history record, or fails and leaves it untouched.

use vstd::prelude::*;
use crate::clock::day_wf;
use crate::step::{DimensionValue, StepConfig};

verus! {

/// Days since the last change assumed when a dimension has never changed:
/// eligible by default.
pub const DEFAULT_DAYS_SINCE_CHANGE: i64 = 30;

/// Days without a ceiling touch after which a dimension at its ceiling
/// should regress.
pub const REGRESSION_GAP_DAYS: i64 = 21;

/// Upper bound on a maintenance cadence, in days.
pub const MAX_CADENCE_DAYS: i32 = 100_000;

/// Whether a dimension progresses toward a ceiling or is regulated by
/// fatigue state.
#[derive(Debug, Clone, Copy, PartialEq, Eq, Structural)]
pub enum DimensionType {
    /// Progresses toward the ceiling when criteria are met.
    Progressive,
    /// Duration selected by TSB each evaluation; never advances.
    Regulated,
}

/// Where a dimension stands in its progression arc. Exactly one state holds
/// at a time.
#[derive(Debug, Clone, Copy, PartialEq, Eq, Structural)]
pub enum LifecycleStatus {
    /// Below the ceiling, working toward it.
    Building,
    /// At the ceiling, maintaining the capability.
    AtCeiling,
    /// Stepping back after detraining.
    Regressing,
}

impl LifecycleStatus {
    /// The status's storage name.
    pub open spec fn spec_str(self) -> Seq<char> {
        match self {
            LifecycleStatus::Building => "building"@,
            LifecycleStatus::AtCeiling => "at_ceiling"@,
            LifecycleStatus::Regressing => "regressing"@,
        }
    }

    /// The status's storage name.
    pub fn as_str(&self) -> (r: &'static str)
        ensures
            r@ == self.spec_str(),
    {
        match self {
            LifecycleStatus::Building => "building",
            LifecycleStatus::AtCeiling => "at_ceiling",
            LifecycleStatus::Regressing => "regressing",
        }
    }

    /// Parse a storage name back into a status.
    pub fn parse(s: &str) -> (r: Option<LifecycleStatus>)
        ensures
            match r {
                Some(v) => s@ == v.spec_str(),
                None => forall|v: LifecycleStatus| s@ != #[trigger] v.spec_str(),
            },
    {
        if crate::text::str_eq(s, "building") {
            Some(LifecycleStatus::Building)
        } else if crate::text::str_eq(s, "at_ceiling") {
            Some(LifecycleStatus::AtCeiling)
        } else if crate::text::str_eq(s, "regressing") {
            Some(LifecycleStatus::Regressing)
        } else {
            proof {
                assert forall|v: LifecycleStatus| s@ != #[trigger] v.spec_str() by {
                    match v {
                        LifecycleStatus::Building => assert(s@ != "building"@),
                        LifecycleStatus::AtCeiling => assert(s@ != "at_ceiling"@),
                        LifecycleStatus::Regressing => assert(s@ != "regressing"@),
                    }
                }
            }
            None
        }
    }
}

impl Default for LifecycleStatus {
    /// A new dimension starts out building.
    fn default() -> (r: Self)
        ensures
            r == LifecycleStatus::Building,
    {
        LifecycleStatus::Building
    }
}

/// What a mutation did, for the history record.
#[derive(Debug, Clone, Copy, PartialEq, Eq, Structural)]
pub enum ChangeType {
    /// The value advanced one step.
    Progress,
    /// The value stepped back one step.
    Regress,
    /// The ceiling was exercised; only the touch timestamp moved.
    CeilingTouch,
    /// The ceiling itself was changed.
    CeilingUpdate,
}

impl ChangeType {
    /// The storage name of the change kind.
    pub open spec fn spec_str(self) -> Seq<char> {
        match self {
            ChangeType::Progress => "progress"@,
            ChangeType::Regress => "regress"@,
            ChangeType::CeilingTouch => "ceiling_touch"@,
            ChangeType::CeilingUpdate => "ceiling_update"@,
        }
    }

    /// The storage name of the change kind.
    pub fn as_str(&self) -> (r: &'static str)
        ensures
            r@ == self.spec_str(),
    {
        match self {
            ChangeType::Progress => "progress",
            ChangeType::Regress => "regress",
            ChangeType::CeilingTouch => "ceiling_touch",
            ChangeType::CeilingUpdate => "ceiling_update",
        }
    }
}

/// One append-only audit row: written once per mutation, never changed.
#[derive(Debug, Clone, PartialEq)]
pub struct ProgressionHistory {
    /// Name of the mutated dimension.
    pub dimension_name: String,
    /// Value before the mutation.
    pub previous_value: DimensionValue,
    /// Value after the mutation.
    pub new_value: DimensionValue,
    /// What the mutation did.
    pub change_type: ChangeType,
    /// Workout that triggered the mutation, if one did.
    pub trigger_workout_id: Option<i64>,
}

/// A failed mutation. The dimension is left exactly as it was.
#[derive(Debug, Clone, Copy, PartialEq, Eq, Structural)]
pub enum ProgressionError {
    /// The dimension has no next value to advance to.
    NoNextValue,
    /// The dimension has no previous value to step back to.
    NoPrevValue,
    /// A ceiling touch was attempted while not at the ceiling.
    NotAtCeiling,
    /// No dimension of the requested name exists.
    NotFound,
}

impl ProgressionError {
    /// A human-readable message naming the dimension.
    pub fn message(&self, dimension_name: &str) -> (r: String)
        ensures
            match self {
                ProgressionError::NoNextValue =>
                    r@ == "No next value available for "@ + dimension_name@,
                ProgressionError::NoPrevValue =>
                    r@ == "No previous value available for "@ + dimension_name@,
                ProgressionError::NotAtCeiling =>
                    r@ == dimension_name@ + " is not at ceiling"@,
                ProgressionError::NotFound =>
                    r@ == "Dimension not found: "@ + dimension_name@,
            },
    {
        match self {
            ProgressionError::NoNextValue => {
                let mut s = String::from_str("No next value available for ");
                s.append(dimension_name);
                s
            },
            ProgressionError::NoPrevValue => {
                let mut s = String::from_str("No previous value available for ");
                s.append(dimension_name);
                s
            },
            ProgressionError::NotAtCeiling => {
                let mut s = String::from_str(dimension_name);
                s.append(" is not at ceiling");
                s
            },
            ProgressionError::NotFound => {
                let mut s = String::from_str("Dimension not found: ");
                s.append(dimension_name);
                s
            },
        }
    }
}

/// A trainable axis. The only durable mutable entity of the engine; mutated
/// only through the methods below.
#[derive(Debug, Clone, PartialEq)]
pub struct ProgressionDimension {
    /// Storage identifier.
    pub id: i64,
    /// Unique name, such as "long_run".
    pub name: String,
    /// Where the athlete stands today.
    pub current_value: DimensionValue,
    /// The value the dimension must not grow beyond.
    pub ceiling_value: DimensionValue,
    /// How the value steps.
    pub step_config: StepConfig,
    /// Lifecycle state.
    pub status: LifecycleStatus,
    /// Day the value last changed, if it ever did.
    pub last_change_at: Option<i64>,
    /// Day the ceiling was last exercised, if it ever was.
    pub last_ceiling_touch_at: Option<i64>,
    /// Days between maintenance touches expected at the ceiling.
    pub maintenance_cadence_days: i32,
    /// Day the dimension was created.
    pub created_at: i64,
    /// Day the dimension was last written.
    pub updated_at: i64,
}

impl ProgressionDimension {
    /// Well-formed: the configuration is sound, both values fit it, and the
    /// timestamps are day numbers in range.
    pub open spec fn wf(self) -> bool {
        &&& self.step_config.wf()
        &&& self.step_config.value_matches(self.current_value, false)
        &&& self.step_config.value_matches(self.ceiling_value, true)
        &&& (self.last_change_at matches Some(d) ==> day_wf(d))
        &&& (self.last_ceiling_touch_at matches Some(d) ==> day_wf(d))
        &&& 0 <= self.maintenance_cadence_days <= MAX_CADENCE_DAYS
    }

    /// Regulated dimensions never advance; everything else is progressive.
    pub open spec fn spec_dimension_type(self) -> DimensionType {
        match self.step_config {
            StepConfig::Regulated { .. } => DimensionType::Regulated,
            _ => DimensionType::Progressive,
        }
    }

    /// Get the type of this dimension.
    pub fn dimension_type(&self) -> (r: DimensionType)
        ensures
            r == self.spec_dimension_type(),
    {
        match self.step_config {
            StepConfig::Regulated { .. } => DimensionType::Regulated,
            _ => DimensionType::Progressive,
        }
    }

    /// The current value stands at or beyond the ceiling.
    pub open spec fn spec_is_at_ceiling(self) -> bool {
        self.step_config.spec_is_at_ceiling(self.current_value, self.ceiling_value)
    }

    /// Check if this dimension is at its ceiling.
    pub fn is_at_ceiling(&self) -> (r: bool)
        ensures
            r == self.spec_is_at_ceiling(),
    {
        self.step_config.is_at_ceiling(&self.current_value, &self.ceiling_value)
    }

    /// The next value, absent when already at the ceiling or regulated.
    pub open spec fn spec_next_value(self) -> Option<DimensionValue> {
        if self.spec_is_at_ceiling() {
            None
        } else {
            self.step_config.spec_next_value(self.current_value)
        }
    }

    /// Get the next progression value (none at the ceiling or regulated).
    pub fn next_value(&self) -> (r: Option<DimensionValue>)
        requires
            self.wf(),
        ensures
            r == self.spec_next_value(),
    {
        if self.is_at_ceiling() {
            None
        } else {
            self.step_config.next_value(&self.current_value)
        }
    }

    /// The previous value, for regression.
    pub open spec fn spec_prev_value(self) -> Option<DimensionValue> {
        self.step_config.spec_prev_value(self.current_value)
    }

    /// Get the previous value for regression.
    pub fn prev_value(&self) -> (r: Option<DimensionValue>)
        requires
            self.wf(),
        ensures
            r == self.spec_prev_value(),
    {
        self.step_config.prev_value(&self.current_value)
    }

    /// Days since the value last changed; a dimension that never changed
    /// counts as changed `DEFAULT_DAYS_SINCE_CHANGE` days ago, so it is
    /// eligible by default.
    pub open spec fn spec_days_since_change(self, today: int) -> int {
        match self.last_change_at {
            Some(d) => today - d,
            None => DEFAULT_DAYS_SINCE_CHANGE as int,
        }
    }

    /// Days since the last change, as of `today`.
    pub fn days_since_change(&self, today: i64) -> (r: i64)
        requires
            self.wf(),
            day_wf(today),
        ensures
            r == self.spec_days_since_change(today as int),
    {
        match self.last_change_at {
            Some(d) => today - d,
            None => DEFAULT_DAYS_SINCE_CHANGE,
        }
    }

    /// Maintenance is due: at the ceiling, and the ceiling has not been
    /// touched within the cadence. Never touched counts as due.
    pub open spec fn spec_maintenance_due(self, today: int) -> bool {
        &&& self.status == LifecycleStatus::AtCeiling
        &&& match self.last_ceiling_touch_at {
            Some(t) => today - t >= self.maintenance_cadence_days,
            None => true,
        }
    }

    /// Check if maintenance is due as of `today`.
    pub fn maintenance_due(&self, today: i64) -> (r: bool)
        requires
            self.wf(),
            day_wf(today),
        ensures
            r == self.spec_maintenance_due(today as int),
    {
        if !matches!(self.status, LifecycleStatus::AtCeiling) {
            return false;
        }
        match self.last_ceiling_touch_at {
            Some(t) => today - t >= self.maintenance_cadence_days as i64,
            None => true,
        }
    }

    /// Regression is warranted: at the ceiling, and the last touch is
    /// `REGRESSION_GAP_DAYS` or more days old. A dimension that never
    /// touched its ceiling does not regress this way.
    pub open spec fn spec_should_regress(self, today: int) -> bool {
        &&& self.status == LifecycleStatus::AtCeiling
        &&& match self.last_ceiling_touch_at {
            Some(t) => today - t >= REGRESSION_GAP_DAYS,
            None => false,
        }
    }

    /// Check if regression is warranted as of `today`.
    pub fn should_regress(&self, today: i64) -> (r: bool)
        requires
            self.wf(),
            day_wf(today),
        ensures
            r == self.spec_should_regress(today as int),
    {
        if !matches!(self.status, LifecycleStatus::AtCeiling) {
            return false;
        }
        match self.last_ceiling_touch_at {
            Some(t) => today - t >= REGRESSION_GAP_DAYS,
            None => false,
        }
    }

    /// The regulated duration for this dimension, from TSB in hundredths.
    pub fn get_regulated_duration(&self, tsb: Option<i64>) -> (r: Option<i32>)
        ensures
            r == self.step_config.spec_regulated_duration(tsb),
    {
        self.step_config.get_regulated_duration(tsb)
    }

    /// The state after a successful progression: the value advances one
    /// step, the change day is stamped, and a dimension that thereby
    /// reaches its ceiling flips to `AtCeiling` with the touch day stamped.
    pub open spec fn spec_after_progression(self, next: DimensionValue, today: int)
        -> ProgressionDimension {
        let stepped = ProgressionDimension {
            current_value: next,
            last_change_at: Some(today as i64),
            ..self
        };
        if stepped.spec_is_at_ceiling() {
            ProgressionDimension {
                status: LifecycleStatus::AtCeiling,
                last_ceiling_touch_at: Some(today as i64),
                ..stepped
            }
        } else {
            stepped
        }
    }

    /// Advance the dimension one step. Fails, leaving the dimension
    /// untouched, exactly when no next value exists (at the ceiling,
    /// regulated, or at the end of a sequence).
    pub fn apply_progression(&mut self, today: i64, trigger_workout_id: Option<i64>)
        -> (r: Result<ProgressionHistory, ProgressionError>)
        requires
            old(self).wf(),
            day_wf(today),
        ensures
            match r {
                Ok(h) => {
                    &&& old(self).spec_next_value() matches Some(nv)
                    &&& *final(self) == old(self).spec_after_progression(nv, today as int)
                    &&& final(self).wf()
                    &&& h == (ProgressionHistory {
                        dimension_name: old(self).name,
                        previous_value: old(self).current_value,
                        new_value: nv,
                        change_type: ChangeType::Progress,
                        trigger_workout_id,
                    })
                },
                Err(e) => {
                    &&& *final(self) == *old(self)
                    &&& e == ProgressionError::NoNextValue
                    &&& old(self).spec_next_value() is None
                },
            },
    {
        let next = match self.next_value() {
            Some(v) => v,
            None => {
                return Err(ProgressionError::NoNextValue);
            },
        };
        let prev = self.current_value.clone();
        self.current_value = next.clone();
        self.last_change_at = Some(today);
        proof {
            lemma_stepped_value_matches(*old(self), next);
        }
        if self.is_at_ceiling() {
            self.status = LifecycleStatus::AtCeiling;
            self.last_ceiling_touch_at = Some(today);
        }
        Ok(ProgressionHistory {
            dimension_name: self.name.clone(),
            previous_value: prev,
            new_value: next,
            change_type: ChangeType::Progress,
            trigger_workout_id,
        })
    }

    /// The state after a successful regression: the value steps back, the
    /// change day is stamped, and the dimension returns to building.
    pub open spec fn spec_after_regression(self, prev: DimensionValue, today: int)
        -> ProgressionDimension {
        ProgressionDimension {
            current_value: prev,
            last_change_at: Some(today as i64),
            status: LifecycleStatus::Building,
            ..self
        }
    }

    /// Step the dimension back one step and return it to building. Fails,
    /// leaving the dimension untouched, exactly when no previous value
    /// exists (at the floor, regulated, or an unlisted token).
    pub fn apply_regression(&mut self, today: i64) -> (r: Result<
        ProgressionHistory,
        ProgressionError,
    >)
        requires
            old(self).wf(),
            day_wf(today),
        ensures
            match r {
                Ok(h) => {
                    &&& old(self).spec_prev_value() matches Some(pv)
                    &&& *final(self) == old(self).spec_after_regression(pv, today as int)
                    &&& final(self).wf()
                    &&& h == (ProgressionHistory {
                        dimension_name: old(self).name,
                        previous_value: old(self).current_value,
                        new_value: pv,
                        change_type: ChangeType::Regress,
                        trigger_workout_id: None,
                    })
                },
                Err(e) => {
                    &&& *final(self) == *old(self)
                    &&& e == ProgressionError::NoPrevValue
                    &&& old(self).spec_prev_value() is None
                },
            },
    {
        let prev_val = match self.prev_value() {
            Some(v) => v,
            None => {
                return Err(ProgressionError::NoPrevValue);
            },
        };
        let old_val = self.current_value.clone();
        self.current_value = prev_val.clone();
        self.last_change_at = Some(today);
        self.status = LifecycleStatus::Building;
        proof {
            lemma_regressed_value_matches(*old(self), prev_val);
        }
        Ok(ProgressionHistory {
            dimension_name: self.name.clone(),
            previous_value: old_val,
            new_value: prev_val,
            change_type: ChangeType::Regress,
            trigger_workout_id: None,
        })
    }

    /// Record a maintenance workout at the ceiling: only the touch day
    /// moves. Fails, leaving the dimension untouched, exactly when the
    /// dimension is not at its ceiling.
    pub fn record_ceiling_touch(&mut self, today: i64) -> (r: Result<
        ProgressionHistory,
        ProgressionError,
    >)
        requires
            old(self).wf(),
            day_wf(today),
        ensures
            match r {
                Ok(h) => {
                    &&& old(self).status == LifecycleStatus::AtCeiling
                    &&& *final(self) == (ProgressionDimension {
                        last_ceiling_touch_at: Some(today),
                        ..*old(self)
                    })
                    &&& final(self).wf()
                    &&& h == (ProgressionHistory {
                        dimension_name: old(self).name,
                        previous_value: old(self).current_value,
                        new_value: old(self).current_value,
                        change_type: ChangeType::CeilingTouch,
                        trigger_workout_id: None,
                    })
                },
                Err(e) => {
                    &&& *final(self) == *old(self)
                    &&& e == ProgressionError::NotAtCeiling
                    &&& old(self).status != LifecycleStatus::AtCeiling
                },
            },
    {
        if !matches!(self.status, LifecycleStatus::AtCeiling) {
            return Err(ProgressionError::NotAtCeiling);
        }
        self.last_ceiling_touch_at = Some(today);
        Ok(ProgressionHistory {
            dimension_name: self.name.clone(),
            previous_value: self.current_value.clone(),
            new_value: self.current_value.clone(),
            change_type: ChangeType::CeilingTouch,
            trigger_workout_id: None,
        })
    }

    /// The state after a ceiling update: the ceiling is replaced and the
    /// status re-derived from the new pair.
    pub open spec fn spec_after_ceiling_update(self, new_ceiling: DimensionValue)
        -> ProgressionDimension {
        let updated = ProgressionDimension { ceiling_value: new_ceiling, ..self };
        if updated.spec_is_at_ceiling() {
            ProgressionDimension { status: LifecycleStatus::AtCeiling, ..updated }
        } else {
            ProgressionDimension { status: LifecycleStatus::Building, ..updated }
        }
    }

    /// Replace the ceiling and re-derive the status. The new ceiling must
    /// fit the step configuration; `StepConfig::value_matches` checks that.
    pub fn update_ceiling(&mut self, new_ceiling: DimensionValue) -> (h: ProgressionHistory)
        requires
            old(self).wf(),
            old(self).step_config.value_matches(new_ceiling, true),
        ensures
            *final(self) == old(self).spec_after_ceiling_update(new_ceiling),
            final(self).wf(),
            h == (ProgressionHistory {
                dimension_name: old(self).name,
                previous_value: old(self).ceiling_value,
                new_value: new_ceiling,
                change_type: ChangeType::CeilingUpdate,
                trigger_workout_id: None,
            }),
    {
        let old_ceiling = self.ceiling_value.clone();
        self.ceiling_value = new_ceiling.clone();
        if self.is_at_ceiling() {
            self.status = LifecycleStatus::AtCeiling;
        } else {
            self.status = LifecycleStatus::Building;
        }
        ProgressionHistory {
            dimension_name: self.name.clone(),
            previous_value: old_ceiling,
            new_value: new_ceiling,
            change_type: ChangeType::CeilingUpdate,
            trigger_workout_id: None,
        }
    }
}

/// A value handed out by `spec_next_value` still fits the configuration:
/// the following sequence token is listed, and a ramp step from a value
/// below the ceiling stays within one increment of the numeric bound.
pub proof fn lemma_stepped_value_matches(dim: ProgressionDimension, next: DimensionValue)
    requires
        dim.wf(),
        dim.spec_next_value() == Some(next),
    ensures
        dim.step_config.value_matches(next, false),
{
    match dim.step_config {
        StepConfig::Sequence { sequence } => {
            match dim.current_value {
                DimensionValue::Token(t) => {
                    let i = token_index_of(sequence@, t@);
                    crate::step::lemma_token_index_props(sequence@, t@);
                    match next {
                        DimensionValue::Token(nt) => {
                            lemma_member_token_index(sequence@, i + 1);
                        },
                        _ => (),
                    }
                },
                _ => (),
            }
        },
        StepConfig::Increment { .. } => (),
        StepConfig::Regulated { .. } => (),
    }
}

/// A value handed out by `spec_prev_value` still fits the configuration.
pub proof fn lemma_regressed_value_matches(dim: ProgressionDimension, prev: DimensionValue)
    requires
        dim.wf(),
        dim.spec_prev_value() == Some(prev),
    ensures
        dim.step_config.value_matches(prev, false),
{
    match dim.step_config {
        StepConfig::Sequence { sequence } => {
            match dim.current_value {
                DimensionValue::Token(t) => {
                    let i = token_index_of(sequence@, t@);
                    crate::step::lemma_token_index_props(sequence@, t@);
                    match prev {
                        DimensionValue::Token(nt) => {
                            lemma_member_token_index(sequence@, i - 1);
                        },
                        _ => (),
                    }
                },
                _ => (),
            }
        },
        StepConfig::Increment { .. } => (),
        StepConfig::Regulated { .. } => (),
    }
}

/// Shorthand for the spec-level first index of a token.
pub open spec fn token_index_of(ts: Seq<String>, t: Seq<char>) -> int {
    crate::step::token_index(ts, t)
}

/// First index of the dimension named `name`, or `-1` when absent.
pub open spec fn spec_dim_index(dims: Seq<ProgressionDimension>, name: Seq<char>) -> int
    decreases dims.len(),
{
    if dims.len() == 0 {
        -1
    } else if dims[0].name@ == name {
        0
    } else {
        let r = spec_dim_index(dims.drop_first(), name);
        if r == -1 {
            -1
        } else {
            r + 1
        }
    }
}

/// The index that `spec_dim_index` returns is in range and names the
/// dimension; every earlier entry differs.
pub proof fn lemma_dim_index_props(dims: Seq<ProgressionDimension>, name: Seq<char>)
    ensures
        -1 <= spec_dim_index(dims, name) < dims.len(),
        spec_dim_index(dims, name) >= 0 ==> dims[spec_dim_index(dims, name)].name@ == name,
        spec_dim_index(dims, name) == -1 ==> forall|j: int|
            0 <= j < dims.len() ==> dims[j].name@ != name,
        forall|j: int| 0 <= j < spec_dim_index(dims, name) ==> dims[j].name@ != name,
    decreases dims.len(),
{
    if dims.len() > 0 && dims[0].name@ != name {
        lemma_dim_index_props(dims.drop_first(), name);
        assert forall|j: int|
            0 <= j < dims.len() && spec_dim_index(dims, name) == -1 implies dims[j].name@
            != name by {
            if j > 0 {
                assert(dims.drop_first()[j - 1] == dims[j]);
            }
        }
        assert forall|j: int| 0 <= j < spec_dim_index(dims, name) implies dims[j].name@ != name by {
            if j > 0 {
                assert(dims.drop_first()[j - 1] == dims[j]);
            }
        }
    }
}

/// A dimension at position `k` behind an unmatched prefix is found at
/// exactly `k`.
pub proof fn lemma_dim_index_found(dims: Seq<ProgressionDimension>, name: Seq<char>, k: int)
    requires
        0 <= k < dims.len(),
        dims[k].name@ == name,
        forall|j: int| 0 <= j < k ==> dims[j].name@ != name,
    ensures
        spec_dim_index(dims, name) == k,
    decreases k,
{
    if k > 0 {
        assert(dims.drop_first()[k - 1] == dims[k]);
        assert forall|j: int| 0 <= j < k - 1 implies dims.drop_first()[j].name@ != name by {
            assert(dims.drop_first()[j] == dims[j + 1]);
        }
        lemma_dim_index_found(dims.drop_first(), name, k - 1);
    }
}

/// Every dimension of a stored set is well-formed.
pub open spec fn dims_wf(dims: Seq<ProgressionDimension>) -> bool {
    forall|i: int| 0 <= i < dims.len() ==> #[trigger] dims[i].wf()
}

/// Find the first dimension of the given name.
pub fn find_dimension(dims: &Vec<ProgressionDimension>, name: &str) -> (r: Option<usize>)
    ensures
        match r {
            Some(i) => i == spec_dim_index(dims@, name@) && i < dims@.len(),
            None => spec_dim_index(dims@, name@) == -1,
        },
{
    let n = dims.len();
    let mut i: usize = 0;
    while i < n
        invariant
            i <= n,
            n == dims@.len(),
            forall|j: int| 0 <= j < i ==> dims@[j].name@ != name@,
        decreases n - i,
    {
        if crate::text::str_eq(dims[i].name.as_str(), name) {
            proof {
                lemma_dim_index_found(dims@, name@, i as int);
            }
            return Some(i);
        }
        i = i + 1;
    }
    proof {
        lemma_dim_index_props(dims@, name@);
    }
    None
}

/// A token that stands at a position of the list is found by
/// `token_index`, at that position or an earlier one.
pub proof fn lemma_member_token_index(ts: Seq<String>, k: int)
    requires
        0 <= k < ts.len(),
    ensures
        0 <= token_index_of(ts, ts[k]@) <= k,
    decreases k,
{
    crate::step::lemma_token_index_props(ts, ts[k]@);
    if token_index_of(ts, ts[k]@) == -1 {
        assert(ts[k]@ == ts[k]@);
        assert(false);
    }
    if token_index_of(ts, ts[k]@) > k {
        assert(false);
    }
}

} // verus!
