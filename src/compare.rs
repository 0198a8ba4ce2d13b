//! Comparison of civil times: all six fields, year first, whatever the
//! alignment of either side.
use crate::civil::{CivilDay, CivilHour, CivilMinute, CivilMonth, CivilSecond, CivilTime, CivilYear};
use crate::fields::Fields;
use core::cmp::Ordering;
use vstd::prelude::*;

verus! {

/// Lexicographic order of fields, year first.
pub open spec fn fields_cmp(a: Fields, b: Fields) -> Ordering {
    if a.y != b.y {
        if a.y < b.y {
            Ordering::Less
        } else {
            Ordering::Greater
        }
    } else if a.m != b.m {
        if a.m < b.m {
            Ordering::Less
        } else {
            Ordering::Greater
        }
    } else if a.d != b.d {
        if a.d < b.d {
            Ordering::Less
        } else {
            Ordering::Greater
        }
    } else if a.hh != b.hh {
        if a.hh < b.hh {
            Ordering::Less
        } else {
            Ordering::Greater
        }
    } else if a.mm != b.mm {
        if a.mm < b.mm {
            Ordering::Less
        } else {
            Ordering::Greater
        }
    } else if a.ss != b.ss {
        if a.ss < b.ss {
            Ordering::Less
        } else {
            Ordering::Greater
        }
    } else {
        Ordering::Equal
    }
}

/// Compares two field records lexicographically, year first.
fn compare_fields(a: Fields, b: Fields) -> (r: Ordering)
    ensures
        r == fields_cmp(a, b),
{
    if a.y != b.y {
        if a.y < b.y {
            Ordering::Less
        } else {
            Ordering::Greater
        }
    } else if a.m != b.m {
        if a.m < b.m {
            Ordering::Less
        } else {
            Ordering::Greater
        }
    } else if a.d != b.d {
        if a.d < b.d {
            Ordering::Less
        } else {
            Ordering::Greater
        }
    } else if a.hh != b.hh {
        if a.hh < b.hh {
            Ordering::Less
        } else {
            Ordering::Greater
        }
    } else if a.mm != b.mm {
        if a.mm < b.mm {
            Ordering::Less
        } else {
            Ordering::Greater
        }
    } else if a.ss != b.ss {
        if a.ss < b.ss {
            Ordering::Less
        } else {
            Ordering::Greater
        }
    } else {
        Ordering::Equal
    }
}

impl<T: CivilTime> PartialEq<T> for CivilSecond {
    fn eq(&self, other: &T) -> (r: bool) {
        self.fields() == other.fields()
    }
}

impl<T: CivilTime> vstd::std_specs::cmp::PartialEqSpecImpl<T> for CivilSecond {
    open spec fn obeys_eq_spec() -> bool {
        true
    }

    open spec fn eq_spec(&self, other: &T) -> bool {
        self@ == other@
    }
}

impl<T: CivilTime> PartialOrd<T> for CivilSecond {
    fn partial_cmp(&self, other: &T) -> (r: Option<Ordering>) {
        Some(compare_fields(self.fields(), other.fields()))
    }
}

impl<T: CivilTime> vstd::std_specs::cmp::PartialOrdSpecImpl<T> for CivilSecond {
    open spec fn obeys_partial_cmp_spec() -> bool {
        true
    }

    open spec fn partial_cmp_spec(&self, other: &T) -> Option<Ordering> {
        Some(fields_cmp(self@, other@))
    }
}

impl<T: CivilTime> PartialEq<T> for CivilMinute {
    fn eq(&self, other: &T) -> (r: bool) {
        self.fields() == other.fields()
    }
}

impl<T: CivilTime> vstd::std_specs::cmp::PartialEqSpecImpl<T> for CivilMinute {
    open spec fn obeys_eq_spec() -> bool {
        true
    }

    open spec fn eq_spec(&self, other: &T) -> bool {
        self@ == other@
    }
}

impl<T: CivilTime> PartialOrd<T> for CivilMinute {
    fn partial_cmp(&self, other: &T) -> (r: Option<Ordering>) {
        Some(compare_fields(self.fields(), other.fields()))
    }
}

impl<T: CivilTime> vstd::std_specs::cmp::PartialOrdSpecImpl<T> for CivilMinute {
    open spec fn obeys_partial_cmp_spec() -> bool {
        true
    }

    open spec fn partial_cmp_spec(&self, other: &T) -> Option<Ordering> {
        Some(fields_cmp(self@, other@))
    }
}

impl<T: CivilTime> PartialEq<T> for CivilHour {
    fn eq(&self, other: &T) -> (r: bool) {
        self.fields() == other.fields()
    }
}

impl<T: CivilTime> vstd::std_specs::cmp::PartialEqSpecImpl<T> for CivilHour {
    open spec fn obeys_eq_spec() -> bool {
        true
    }

    open spec fn eq_spec(&self, other: &T) -> bool {
        self@ == other@
    }
}

impl<T: CivilTime> PartialOrd<T> for CivilHour {
    fn partial_cmp(&self, other: &T) -> (r: Option<Ordering>) {
        Some(compare_fields(self.fields(), other.fields()))
    }
}

impl<T: CivilTime> vstd::std_specs::cmp::PartialOrdSpecImpl<T> for CivilHour {
    open spec fn obeys_partial_cmp_spec() -> bool {
        true
    }

    open spec fn partial_cmp_spec(&self, other: &T) -> Option<Ordering> {
        Some(fields_cmp(self@, other@))
    }
}

impl<T: CivilTime> PartialEq<T> for CivilDay {
    fn eq(&self, other: &T) -> (r: bool) {
        self.fields() == other.fields()
    }
}

impl<T: CivilTime> vstd::std_specs::cmp::PartialEqSpecImpl<T> for CivilDay {
    open spec fn obeys_eq_spec() -> bool {
        true
    }

    open spec fn eq_spec(&self, other: &T) -> bool {
        self@ == other@
    }
}

impl<T: CivilTime> PartialOrd<T> for CivilDay {
    fn partial_cmp(&self, other: &T) -> (r: Option<Ordering>) {
        Some(compare_fields(self.fields(), other.fields()))
    }
}

impl<T: CivilTime> vstd::std_specs::cmp::PartialOrdSpecImpl<T> for CivilDay {
    open spec fn obeys_partial_cmp_spec() -> bool {
        true
    }

    open spec fn partial_cmp_spec(&self, other: &T) -> Option<Ordering> {
        Some(fields_cmp(self@, other@))
    }
}

impl<T: CivilTime> PartialEq<T> for CivilMonth {
    fn eq(&self, other: &T) -> (r: bool) {
        self.fields() == other.fields()
    }
}

impl<T: CivilTime> vstd::std_specs::cmp::PartialEqSpecImpl<T> for CivilMonth {
    open spec fn obeys_eq_spec() -> bool {
        true
    }

    open spec fn eq_spec(&self, other: &T) -> bool {
        self@ == other@
    }
}

impl<T: CivilTime> PartialOrd<T> for CivilMonth {
    fn partial_cmp(&self, other: &T) -> (r: Option<Ordering>) {
        Some(compare_fields(self.fields(), other.fields()))
    }
}

impl<T: CivilTime> vstd::std_specs::cmp::PartialOrdSpecImpl<T> for CivilMonth {
    open spec fn obeys_partial_cmp_spec() -> bool {
        true
    }

    open spec fn partial_cmp_spec(&self, other: &T) -> Option<Ordering> {
        Some(fields_cmp(self@, other@))
    }
}

impl<T: CivilTime> PartialEq<T> for CivilYear {
    fn eq(&self, other: &T) -> (r: bool) {
        self.fields() == other.fields()
    }
}

impl<T: CivilTime> vstd::std_specs::cmp::PartialEqSpecImpl<T> for CivilYear {
    open spec fn obeys_eq_spec() -> bool {
        true
    }

    open spec fn eq_spec(&self, other: &T) -> bool {
        self@ == other@
    }
}

impl<T: CivilTime> PartialOrd<T> for CivilYear {
    fn partial_cmp(&self, other: &T) -> (r: Option<Ordering>) {
        Some(compare_fields(self.fields(), other.fields()))
    }
}

impl<T: CivilTime> vstd::std_specs::cmp::PartialOrdSpecImpl<T> for CivilYear {
    open spec fn obeys_partial_cmp_spec() -> bool {
        true
    }

    open spec fn partial_cmp_spec(&self, other: &T) -> Option<Ordering> {
        Some(fields_cmp(self@, other@))
    }
}

} // verus!
