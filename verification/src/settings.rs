//! User physiology settings and the effective lactate-threshold fallback.

use vstd::prelude::*;

verus! {

/// Upper bound on stored heart rates. Far above any physiological value; it
/// exists so that products like `max_hr * 93` stay inside `i64`.
pub const MAX_HEART_RATE: i64 = 1000;

/// Upper bound on expected training sessions per week, for the same reason.
pub const MAX_SESSIONS_PER_WEEK: i64 = 1000;

/// User physiology settings: a read-only snapshot per call.
#[derive(Debug, Clone, PartialEq)]
pub struct UserSettings {
    /// Maximum heart rate in beats per minute.
    pub max_hr: Option<i64>,
    /// Lactate threshold heart rate in beats per minute, if explicitly set.
    pub lthr: Option<i64>,
    /// Functional threshold power in watts.
    pub ftp: Option<i64>,
    /// Expected number of training sessions per week.
    pub training_days_per_week: i64,
}

impl UserSettings {
    /// Well-formed settings: heart rates are non-negative and bounded, so the
    /// threshold fallback and the consistency formula cannot overflow.
    pub open spec fn wf(self) -> bool {
        &&& (self.max_hr matches Some(m) ==> 0 <= m <= MAX_HEART_RATE)
        &&& (self.lthr matches Some(l) ==> 0 <= l <= MAX_HEART_RATE)
        &&& 0 <= self.training_days_per_week <= MAX_SESSIONS_PER_WEEK
    }

    /// The threshold heart rate a computation should use: the explicit value
    /// when one is set, otherwise 93% of the maximum heart rate, truncated.
    pub open spec fn spec_effective_lthr(self) -> Option<i64> {
        match self.lthr {
            Some(l) => Some(l),
            None => match self.max_hr {
                Some(m) => Some((m * 93 / 100) as i64),
                None => None,
            },
        }
    }

    /// Get the lactate threshold heart rate, falling back to 93% of `max_hr`
    /// (truncated) when no explicit value is set.
    pub fn effective_lthr(&self) -> (r: Option<i64>)
        requires
            self.wf(),
        ensures
            r == self.spec_effective_lthr(),
    {
        match self.lthr {
            Some(l) => Some(l),
            None => match self.max_hr {
                Some(m) => Some(m * 93 / 100),
                None => None,
            },
        }
    }
}

/// The physiology facts a renderer needs: the maximum heart rate, the
/// threshold actually in use (explicit or the fallback), and the expected
/// weekly sessions.
#[derive(Debug, Clone, PartialEq)]
pub struct UserContext {
    /// Maximum heart rate in beats per minute.
    pub max_hr: Option<i64>,
    /// The threshold heart rate in use.
    pub lthr: Option<i64>,
    /// Expected number of training sessions per week.
    pub training_days_per_week: i64,
}

impl UserContext {
    /// Build the renderer's view of the settings: the threshold shown is
    /// the effective one.
    pub fn from_settings(settings: &UserSettings) -> (r: UserContext)
        requires
            settings.wf(),
        ensures
            r.max_hr == settings.max_hr,
            r.lthr == settings.spec_effective_lthr(),
            r.training_days_per_week == settings.training_days_per_week,
    {
        UserContext {
            max_hr: settings.max_hr,
            lthr: settings.effective_lthr(),
            training_days_per_week: settings.training_days_per_week,
        }
    }
}

impl Default for UserSettings {
    /// No physiology recorded; six expected sessions per week.
    fn default() -> (r: Self)
        ensures
            r.max_hr is None,
            r.lthr is None,
            r.ftp is None,
            r.training_days_per_week == 6,
            r.wf(),
    {
        UserSettings { max_hr: None, lthr: None, ftp: None, training_days_per_week: 6 }
    }
}

} // verus!
