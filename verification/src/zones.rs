//! Heart-rate zones derived from the ratio of a heart rate to the maximum.

use vstd::prelude::*;

verus! {

/// A heart-rate zone, classified by the percentage `hr / max_hr`:
/// below 60% is Z1, below 70% Z2, below 80% Z3, below 90% Z4, else Z5.
#[derive(Debug, Clone, Copy, PartialEq, Eq, Structural)]
pub enum HrZone {
    /// Recovery: below 60% of maximum.
    Z1,
    /// Aerobic: 60% to below 70%.
    Z2,
    /// Tempo: 70% to below 80%.
    Z3,
    /// Threshold: 80% to below 90%.
    Z4,
    /// VO2max: 90% and above.
    Z5,
}

impl HrZone {
    /// The zone that the pair `(hr, max_hr)` falls in. The boundaries are
    /// exact: `hr * 100` is compared against multiples of `max_hr`, so a
    /// heart rate at exactly 60% of the maximum is Z2, not Z1. A zero
    /// maximum classifies as the top zone (the percentage is unbounded).
    pub open spec fn spec_from_hr(hr: int, max_hr: int) -> HrZone {
        if max_hr == 0 {
            HrZone::Z5
        } else if hr * 100 < 60 * max_hr {
            HrZone::Z1
        } else if hr * 100 < 70 * max_hr {
            HrZone::Z2
        } else if hr * 100 < 80 * max_hr {
            HrZone::Z3
        } else if hr * 100 < 90 * max_hr {
            HrZone::Z4
        } else {
            HrZone::Z5
        }
    }

    /// Classify a heart rate against a maximum heart rate.
    pub fn from_hr(hr: i64, max_hr: i64) -> (z: HrZone)
        requires
            0 <= hr <= crate::settings::MAX_HEART_RATE,
            0 <= max_hr <= crate::settings::MAX_HEART_RATE,
        ensures
            z == Self::spec_from_hr(hr as int, max_hr as int),
    {
        if max_hr == 0 {
            HrZone::Z5
        } else if hr * 100 < 60 * max_hr {
            HrZone::Z1
        } else if hr * 100 < 70 * max_hr {
            HrZone::Z2
        } else if hr * 100 < 80 * max_hr {
            HrZone::Z3
        } else if hr * 100 < 90 * max_hr {
            HrZone::Z4
        } else {
            HrZone::Z5
        }
    }

    /// The zone's display name.
    pub open spec fn spec_str(self) -> Seq<char> {
        match self {
            HrZone::Z1 => "Z1"@,
            HrZone::Z2 => "Z2"@,
            HrZone::Z3 => "Z3"@,
            HrZone::Z4 => "Z4"@,
            HrZone::Z5 => "Z5"@,
        }
    }

    /// The zone's display name.
    pub fn as_str(&self) -> (r: &'static str)
        ensures
            r@ == self.spec_str(),
    {
        match self {
            HrZone::Z1 => "Z1",
            HrZone::Z2 => "Z2",
            HrZone::Z3 => "Z3",
            HrZone::Z4 => "Z4",
            HrZone::Z5 => "Z5",
        }
    }
}

} // verus!
