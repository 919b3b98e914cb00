//! Promulgation and revision dates: a Gregorian year paired with the era
//! rendering, and the partial comparison the revision chain relies on.

use crate::era::Era;
use core::cmp::Ordering;
use vstd::prelude::*;

verus! {

/// A date of the corpus: the Gregorian year, its era rendering, and an
/// optional month and day. A day without a month can be represented, but a
/// well-formed date never has one; see [`Date::wf`].
#[derive(Debug, Clone, Copy, Hash, Eq)]
pub struct Date {
    /// Gregorian year.
    pub ad_year: u64,
    /// Era of the date.
    pub era: Era,
    /// Era-relative year.
    pub year: u64,
    /// Month, 1 to 12 where present.
    pub month: Option<u64>,
    /// Day of month, 1 to 31 where present.
    pub day: Option<u64>,
}

impl Date {
    /// A date that carries a day also carries a month.
    pub open spec fn wf(self) -> bool {
        self.day is Some ==> self.month is Some
    }

    /// Field-wise equality of two dates.
    pub open spec fn eq_spec_fields(self, other: Date) -> bool {
        &&& self.ad_year == other.ad_year
        &&& self.era == other.era
        &&& self.year == other.year
        &&& self.month == other.month
        &&& self.day == other.day
    }

    /// The partial comparison of two dates: by Gregorian year first; if those
    /// are equal, by month only when both sides have one, then by day only
    /// when both sides have one. A date lacking month or day where the other
    /// side needs the comparison is incomparable (`None`).
    pub open spec fn partial_cmp_spec_def(self, other: Date) -> Option<Ordering> {
        if self.ad_year == other.ad_year {
            match (self.month, other.month) {
                (Some(m1), Some(m2)) => {
                    if m1 == m2 {
                        match (self.day, other.day) {
                            (Some(d1), Some(d2)) => Some(ord_of(d1 as int, d2 as int)),
                            _ => None,
                        }
                    } else {
                        Some(ord_of(m1 as int, m2 as int))
                    }
                },
                _ => None,
            }
        } else {
            Some(ord_of(self.ad_year as int, other.ad_year as int))
        }
    }

    /// The total comparison used when sorting: the partial comparison with
    /// incomparable pairs counted as equal.
    pub open spec fn cmp_spec_def(self, other: Date) -> Ordering {
        match self.partial_cmp_spec_def(other) {
            Some(o) => o,
            None => Ordering::Equal,
        }
    }

    /// Total comparison of two dates, with incomparable pairs counted as
    /// equal. This makes unequal dates compare as equal when one side lacks
    /// a month or a day: it is not a total order.
    pub fn cmp(&self, other: &Date) -> (r: Ordering)
        ensures
            r == self.cmp_spec_def(*other),
    {
        match self.partial_cmp(other) {
            Some(o) => o,
            None => Ordering::Equal,
        }
    }
}

/// The ordering of two integers.
pub open spec fn ord_of(a: int, b: int) -> Ordering {
    if a < b {
        Ordering::Less
    } else if a == b {
        Ordering::Equal
    } else {
        Ordering::Greater
    }
}

/// The ordering of two machine integers.
fn ord_of_u64(a: u64, b: u64) -> (r: Ordering)
    ensures
        r == ord_of(a as int, b as int),
{
    if a < b {
        Ordering::Less
    } else if a == b {
        Ordering::Equal
    } else {
        Ordering::Greater
    }
}

impl PartialEq for Date {
    fn eq(&self, other: &Date) -> (r: bool) {
        let months_eq = match (self.month, other.month) {
            (Some(a), Some(b)) => a == b,
            (None, None) => true,
            _ => false,
        };
        let days_eq = match (self.day, other.day) {
            (Some(a), Some(b)) => a == b,
            (None, None) => true,
            _ => false,
        };
        self.ad_year == other.ad_year && self.era == other.era && self.year == other.year
            && months_eq && days_eq
    }
}

impl vstd::std_specs::cmp::PartialEqSpecImpl for Date {
    open spec fn obeys_eq_spec() -> bool {
        true
    }

    open spec fn eq_spec(&self, other: &Date) -> bool {
        self.eq_spec_fields(*other)
    }
}

impl PartialOrd for Date {
    fn partial_cmp(&self, other: &Date) -> (r: Option<Ordering>) {
        if self.ad_year == other.ad_year {
            match (self.month, other.month) {
                (Some(m1), Some(m2)) => {
                    if m1 == m2 {
                        match (self.day, other.day) {
                            (Some(d1), Some(d2)) => Some(ord_of_u64(d1, d2)),
                            _ => None,
                        }
                    } else {
                        Some(ord_of_u64(m1, m2))
                    }
                },
                _ => None,
            }
        } else {
            Some(ord_of_u64(self.ad_year, other.ad_year))
        }
    }
}

impl vstd::std_specs::cmp::PartialOrdSpecImpl for Date {
    open spec fn obeys_partial_cmp_spec() -> bool {
        true
    }

    open spec fn partial_cmp_spec(&self, other: &Date) -> Option<Ordering> {
        self.partial_cmp_spec_def(*other)
    }
}

} // verus!
