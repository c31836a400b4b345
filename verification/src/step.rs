//! The step model of a trainable dimension: tagged values, step
//! configurations, and the operations that move a value along its axis.
//!
//! A dimension's current and ceiling values are a tagged union — ordinal
//! tokens for sequence-stepped axes, whole minutes for numeric ones — so a
//! malformed stored value is impossible by construction.

use vstd::prelude::*;

verus! {

/// Upper bound on a numeric dimension value or step, in minutes.
pub const MAX_STEP_MINUTES: i32 = 1_000_000;

/// Upper bound on the number of entries a sequence or option list may hold.
pub const MAX_STEP_ENTRIES: usize = 1000;

/// A dimension value: whole minutes for numeric axes, an ordinal token for
/// sequence axes.
#[derive(Debug, PartialEq)]
pub enum DimensionValue {
    /// A duration in whole minutes.
    Minutes(i32),
    /// An ordinal token such as a work:rest ratio.
    Token(String),
}

/// Two dimension values are the same: same variant, same minutes or the
/// same token text.
pub open spec fn value_eq(a: DimensionValue, b: DimensionValue) -> bool {
    match (a, b) {
        (DimensionValue::Minutes(x), DimensionValue::Minutes(y)) => x == y,
        (DimensionValue::Token(x), DimensionValue::Token(y)) => x@ == y@,
        _ => false,
    }
}

impl Clone for DimensionValue {
    /// An exact copy.
    fn clone(&self) -> (r: Self)
        ensures
            r == *self,
    {
        match self {
            DimensionValue::Minutes(m) => DimensionValue::Minutes(*m),
            DimensionValue::Token(t) => DimensionValue::Token(t.clone()),
        }
    }
}

impl DimensionValue {
    /// Compare two values for equality.
    pub fn eq_value(&self, other: &DimensionValue) -> (r: bool)
        ensures
            r == value_eq(*self, *other),
    {
        match (self, other) {
            (DimensionValue::Minutes(x), DimensionValue::Minutes(y)) => *x == *y,
            (DimensionValue::Token(x), DimensionValue::Token(y)) => crate::text::str_eq(
                x.as_str(),
                y.as_str(),
            ),
            _ => false,
        }
    }
}

/// First index of the token `t` in the list, or `-1` when absent.
pub open spec fn token_index(ts: Seq<String>, t: Seq<char>) -> int
    decreases ts.len(),
{
    if ts.len() == 0 {
        -1
    } else if ts[0]@ == t {
        0
    } else {
        let r = token_index(ts.drop_first(), t);
        if r == -1 {
            -1
        } else {
            r + 1
        }
    }
}

/// The index that `token_index` returns is in range and really carries the
/// token; every earlier entry differs.
pub proof fn lemma_token_index_props(ts: Seq<String>, t: Seq<char>)
    ensures
        -1 <= token_index(ts, t) < ts.len(),
        token_index(ts, t) >= 0 ==> ts[token_index(ts, t)]@ == t,
        token_index(ts, t) == -1 ==> forall|j: int| 0 <= j < ts.len() ==> ts[j]@ != t,
        forall|j: int| 0 <= j < token_index(ts, t) ==> ts[j]@ != t,
    decreases ts.len(),
{
    if ts.len() > 0 && ts[0]@ != t {
        lemma_token_index_props(ts.drop_first(), t);
        assert forall|j: int| 0 <= j < ts.len() && token_index(ts, t) == -1 implies ts[j]@ != t by {
            if j > 0 {
                assert(ts.drop_first()[j - 1] == ts[j]);
            }
        }
        assert forall|j: int| 0 <= j < token_index(ts, t) implies ts[j]@ != t by {
            if j > 0 {
                assert(ts.drop_first()[j - 1] == ts[j]);
            }
        }
    }
}

/// A token that occurs at position `k` behind an unmatched prefix has
/// `token_index` exactly `k`.
pub proof fn lemma_token_index_found(ts: Seq<String>, t: Seq<char>, k: int)
    requires
        0 <= k < ts.len(),
        ts[k]@ == t,
        forall|j: int| 0 <= j < k ==> ts[j]@ != t,
    ensures
        token_index(ts, t) == k,
    decreases k,
{
    if k > 0 {
        assert(ts.drop_first()[k - 1] == ts[k]);
        assert forall|j: int| 0 <= j < k - 1 implies ts.drop_first()[j]@ != t by {
            assert(ts.drop_first()[j] == ts[j + 1]);
        }
        lemma_token_index_found(ts.drop_first(), t, k - 1);
    }
}

/// Find the first entry equal to `t`, returning its index.
fn find_token(ts: &Vec<String>, t: &String) -> (r: Option<usize>)
    ensures
        match r {
            Some(i) => i == token_index(ts@, t@) && i < ts@.len(),
            None => token_index(ts@, t@) == -1,
        },
{
    let n = ts.len();
    let mut i: usize = 0;
    while i < n
        invariant
            i <= n,
            n == ts@.len(),
            forall|j: int| 0 <= j < i ==> ts@[j]@ != t@,
        decreases n - i,
    {
        if crate::text::str_eq(ts[i].as_str(), t.as_str()) {
            proof {
                lemma_token_index_found(ts@, t@, i as int);
            }
            return Some(i);
        }
        i = i + 1;
    }
    proof {
        lemma_token_index_props(ts@, t@);
    }
    None
}

/// How a dimension's value advances.
#[derive(Debug, Clone, PartialEq)]
pub enum StepConfig {
    /// A discrete ordered list of tokens; the value steps by list position.
    Sequence { sequence: Vec<String> },
    /// A linear ramp: the value steps by a fixed number of minutes.
    Increment { increment: i32, unit: String },
    /// No progression: the duration is selected from options by fatigue
    /// state each evaluation.
    Regulated { options: Vec<i32>, unit: String },
}

impl StepConfig {
    /// Structural bounds: short lists, positive bounded steps, and for
    /// regulated configurations options in ascending order.
    pub open spec fn wf(self) -> bool {
        match self {
            StepConfig::Sequence { sequence } => sequence@.len() <= MAX_STEP_ENTRIES,
            StepConfig::Increment { increment, unit } => 0 < increment <= MAX_STEP_MINUTES,
            StepConfig::Regulated { options, unit } => {
                &&& options@.len() <= MAX_STEP_ENTRIES
                &&& (forall|i: int| 0 <= i < options@.len() ==>
                    0 < #[trigger] options@[i] <= MAX_STEP_MINUTES)
                &&& (forall|i: int, j: int| 0 <= i <= j < options@.len() ==>
                    #[trigger] options@[i] <= #[trigger] options@[j])
            },
        }
    }

    /// The value fits this configuration: a listed token for sequences,
    /// bounded positive minutes for the others. A current value may carry up
    /// to one increment above the numeric bound, since a progression may
    /// overshoot the ceiling by a single step.
    pub open spec fn value_matches(self, v: DimensionValue, ceiling: bool) -> bool {
        match self {
            StepConfig::Sequence { sequence } => v matches DimensionValue::Token(t)
                && token_index(sequence@, t@) >= 0,
            StepConfig::Increment { .. } => v matches DimensionValue::Minutes(m)
                && 0 < m <= if ceiling { MAX_STEP_MINUTES as int } else { 2 * MAX_STEP_MINUTES as int },
            StepConfig::Regulated { .. } => v matches DimensionValue::Minutes(m)
                && 0 < m <= if ceiling { MAX_STEP_MINUTES as int } else { 2 * MAX_STEP_MINUTES as int },
        }
    }

    /// Check the structural bounds at run time, for values arriving from
    /// storage.
    pub fn check_wf(&self) -> (r: bool)
        ensures
            r == self.wf(),
    {
        match self {
            StepConfig::Sequence { sequence } => sequence.len() <= MAX_STEP_ENTRIES,
            StepConfig::Increment { increment, .. } => 0 < *increment && *increment
                <= MAX_STEP_MINUTES,
            StepConfig::Regulated { options, .. } => {
                if options.len() > MAX_STEP_ENTRIES {
                    return false;
                }
                let n = options.len();
                let mut i: usize = 0;
                let mut ok = true;
                while i < n
                    invariant
                        i <= n,
                        n == options@.len(),
                        ok == ((forall|k: int| 0 <= k < i ==>
                            0 < #[trigger] options@[k] <= MAX_STEP_MINUTES) && (forall|
                            a: int,
                            b: int,
                        | 0 <= a <= b < i ==> #[trigger] options@[a] <= #[trigger] options@[b])),
                    decreases n - i,
                {
                    if !(0 < options[i] && options[i] <= MAX_STEP_MINUTES) {
                        ok = false;
                    }
                    if i > 0 && options[i - 1] > options[i] {
                        ok = false;
                    }
                    proof {
                        if ok {
                            assert forall|a: int, b: int| 0 <= a <= b < i + 1 implies
                                #[trigger] options@[a] <= #[trigger] options@[b] by {
                                if b == i && a < i {
                                    assert(options@[i - 1] <= options@[i as int]);
                                }
                            }
                        }
                    }
                    i = i + 1;
                }
                ok
            },
        }
    }

    /// Check at run time that a value fits this configuration, for values
    /// arriving from storage.
    pub fn check_value(&self, v: &DimensionValue, ceiling: bool) -> (r: bool)
        ensures
            r == self.value_matches(*v, ceiling),
    {
        match self {
            StepConfig::Sequence { sequence } => match v {
                DimensionValue::Token(t) => matches!(find_token(sequence, t), Some(_)),
                _ => false,
            },
            StepConfig::Increment { .. } | StepConfig::Regulated { .. } => match v {
                DimensionValue::Minutes(m) => 0 < *m && (if ceiling {
                    *m <= MAX_STEP_MINUTES
                } else {
                    *m <= 2 * MAX_STEP_MINUTES
                }),
                _ => false,
            },
        }
    }

    /// The next value along the axis: the following token for sequences
    /// (none past the end), one increment more for ramps, none for
    /// regulated configurations.
    pub open spec fn spec_next_value(self, current: DimensionValue) -> Option<DimensionValue> {
        match self {
            StepConfig::Sequence { sequence } => match current {
                DimensionValue::Token(t) => {
                    let i = token_index(sequence@, t@);
                    if i >= 0 && i + 1 < sequence@.len() {
                        Some(DimensionValue::Token(sequence@[i + 1]))
                    } else {
                        None
                    }
                },
                _ => None,
            },
            StepConfig::Increment { increment, .. } => match current {
                DimensionValue::Minutes(m) => Some(DimensionValue::Minutes((m + increment) as i32)),
                _ => None,
            },
            StepConfig::Regulated { .. } => None,
        }
    }

    /// Get the next value in the progression.
    pub fn next_value(&self, current: &DimensionValue) -> (r: Option<DimensionValue>)
        requires
            self.wf(),
            self.value_matches(*current, false) || !(self is Increment),
        ensures
            r == self.spec_next_value(*current),
    {
        match self {
            StepConfig::Sequence { sequence } => match current {
                DimensionValue::Token(t) => match find_token(sequence, t) {
                    Some(i) => if i + 1 < sequence.len() {
                        Some(DimensionValue::Token(sequence[i + 1].clone()))
                    } else {
                        None
                    },
                    None => None,
                },
                _ => None,
            },
            StepConfig::Increment { increment, .. } => match current {
                DimensionValue::Minutes(m) => Some(DimensionValue::Minutes(*m + *increment)),
                _ => None,
            },
            StepConfig::Regulated { .. } => None,
        }
    }

    /// The previous value along the axis: the preceding token for sequences
    /// (none before the start), one increment less for ramps when the
    /// result stays positive, none for regulated configurations.
    pub open spec fn spec_prev_value(self, current: DimensionValue) -> Option<DimensionValue> {
        match self {
            StepConfig::Sequence { sequence } => match current {
                DimensionValue::Token(t) => {
                    let i = token_index(sequence@, t@);
                    if i >= 1 {
                        Some(DimensionValue::Token(sequence@[i - 1]))
                    } else {
                        None
                    }
                },
                _ => None,
            },
            StepConfig::Increment { increment, .. } => match current {
                DimensionValue::Minutes(m) => if m - increment > 0 {
                    Some(DimensionValue::Minutes((m - increment) as i32))
                } else {
                    None
                },
                _ => None,
            },
            StepConfig::Regulated { .. } => None,
        }
    }

    /// Get the previous value (for regression).
    pub fn prev_value(&self, current: &DimensionValue) -> (r: Option<DimensionValue>)
        requires
            self.wf(),
            self.value_matches(*current, false) || !(self is Increment),
        ensures
            r == self.spec_prev_value(*current),
    {
        match self {
            StepConfig::Sequence { sequence } => match current {
                DimensionValue::Token(t) => match find_token(sequence, t) {
                    Some(i) => if i >= 1 {
                        Some(DimensionValue::Token(sequence[i - 1].clone()))
                    } else {
                        None
                    },
                    None => None,
                },
                _ => None,
            },
            StepConfig::Increment { increment, .. } => match current {
                DimensionValue::Minutes(m) => if *m - *increment > 0 {
                    Some(DimensionValue::Minutes(*m - *increment))
                } else {
                    None
                },
                _ => None,
            },
            StepConfig::Regulated { .. } => None,
        }
    }

    /// The value is at or beyond the ceiling: by list position for
    /// sequences (token equality when either is unlisted), numerically for
    /// ramps (an unparseable pair counts as below), always for regulated
    /// configurations.
    pub open spec fn spec_is_at_ceiling(self, current: DimensionValue, ceiling: DimensionValue)
        -> bool {
        match self {
            StepConfig::Sequence { sequence } => {
                let c = match current {
                    DimensionValue::Token(t) => token_index(sequence@, t@),
                    _ => -1,
                };
                let l = match ceiling {
                    DimensionValue::Token(t) => token_index(sequence@, t@),
                    _ => -1,
                };
                if c >= 0 && l >= 0 {
                    c >= l
                } else {
                    value_eq(current, ceiling)
                }
            },
            StepConfig::Increment { .. } => {
                let c = match current {
                    DimensionValue::Minutes(m) => m as int,
                    _ => 0,
                };
                let l = match ceiling {
                    DimensionValue::Minutes(m) => m as int,
                    _ => i32::MAX as int,
                };
                c >= l
            },
            StepConfig::Regulated { .. } => true,
        }
    }

    /// Check whether `current` is at or beyond `ceiling`.
    pub fn is_at_ceiling(&self, current: &DimensionValue, ceiling: &DimensionValue) -> (r: bool)
        ensures
            r == self.spec_is_at_ceiling(*current, *ceiling),
    {
        match self {
            StepConfig::Sequence { sequence } => {
                let c = match current {
                    DimensionValue::Token(t) => find_token(sequence, t),
                    _ => None,
                };
                let l = match ceiling {
                    DimensionValue::Token(t) => find_token(sequence, t),
                    _ => None,
                };
                match (c, l) {
                    (Some(ci), Some(li)) => ci >= li,
                    _ => current.eq_value(ceiling),
                }
            },
            StepConfig::Increment { .. } => {
                let c: i32 = match current {
                    DimensionValue::Minutes(m) => *m,
                    _ => 0,
                };
                let l: i32 = match ceiling {
                    DimensionValue::Minutes(m) => *m,
                    _ => i32::MAX,
                };
                c >= l
            },
            StepConfig::Regulated { .. } => true,
        }
    }

    /// The duration a regulated dimension should run today, in minutes:
    /// fresh (TSB at least zero) takes the longest option, light fatigue
    /// (TSB down to -10) the shortest, deeper fatigue the shortest capped
    /// at 40 minutes. With fewer than two options, the first. TSB is in
    /// hundredths; an absent TSB counts as zero.
    pub open spec fn spec_regulated_duration(self, tsb: Option<i64>) -> Option<i32> {
        match self {
            StepConfig::Regulated { options, .. } => {
                let t = match tsb {
                    Some(v) => v as int,
                    None => 0,
                };
                if options@.len() >= 2 {
                    if t >= 0 {
                        Some(options@.last())
                    } else if t >= -1000 {
                        Some(options@.first())
                    } else {
                        Some(if options@.first() < 40 { options@.first() } else { 40 })
                    }
                } else if options@.len() == 1 {
                    Some(options@.first())
                } else {
                    None
                }
            },
            _ => None,
        }
    }

    /// Get the regulated duration based on TSB (in hundredths).
    pub fn get_regulated_duration(&self, tsb: Option<i64>) -> (r: Option<i32>)
        ensures
            r == self.spec_regulated_duration(tsb),
    {
        match self {
            StepConfig::Regulated { options, .. } => {
                let t: i64 = match tsb {
                    Some(v) => v,
                    None => 0,
                };
                if options.len() >= 2 {
                    if t >= 0 {
                        Some(options[options.len() - 1])
                    } else if t >= -1000 {
                        Some(options[0])
                    } else {
                        let first = options[0];
                        Some(if first < 40 { first } else { 40 })
                    }
                } else if options.len() == 1 {
                    Some(options[0])
                } else {
                    None
                }
            },
            _ => None,
        }
    }
}

} // verus!
