//! Realignment: every civil-time type converts into every other by
//! re-aligning the same canonical fields, without renormalizing.
use crate::civil::{
    align_day, align_hour, align_minute, align_month, align_second, align_year, CivilDay, CivilHour,
    CivilMinute, CivilMonth, CivilSecond, CivilTime, CivilYear,
};
use vstd::prelude::*;

verus! {

impl CivilSecond {
    /// Realigns a [`CivilMinute`] to second alignment.
    pub fn from_minute(other: CivilMinute) -> (r: CivilSecond)
        ensures
            r@ == align_second(other@),
    {
        proof {
            use_type_invariant(&other);
        }
        CivilSecond::from_fields(other.fields())
    }

    /// Realigns a [`CivilHour`] to second alignment.
    pub fn from_hour(other: CivilHour) -> (r: CivilSecond)
        ensures
            r@ == align_second(other@),
    {
        proof {
            use_type_invariant(&other);
        }
        CivilSecond::from_fields(other.fields())
    }

    /// Realigns a [`CivilDay`] to second alignment.
    pub fn from_day(other: CivilDay) -> (r: CivilSecond)
        ensures
            r@ == align_second(other@),
    {
        proof {
            use_type_invariant(&other);
        }
        CivilSecond::from_fields(other.fields())
    }

    /// Realigns a [`CivilMonth`] to second alignment.
    pub fn from_month(other: CivilMonth) -> (r: CivilSecond)
        ensures
            r@ == align_second(other@),
    {
        proof {
            use_type_invariant(&other);
        }
        CivilSecond::from_fields(other.fields())
    }

    /// Realigns a [`CivilYear`] to second alignment.
    pub fn from_year(other: CivilYear) -> (r: CivilSecond)
        ensures
            r@ == align_second(other@),
    {
        proof {
            use_type_invariant(&other);
        }
        CivilSecond::from_fields(other.fields())
    }
}

impl From<CivilMinute> for CivilSecond {
    fn from(other: CivilMinute) -> (r: CivilSecond) {
        let r = CivilSecond::from_minute(other);
        proof {
            let c = choose|c: CivilSecond| c@ == align_second(other@);
            CivilSecond::lemma_view_injective(r, c);
        }
        r
    }
}

impl vstd::std_specs::convert::FromSpecImpl<CivilMinute> for CivilSecond {
    open spec fn obeys_from_spec() -> bool {
        true
    }

    open spec fn from_spec(v: CivilMinute) -> CivilSecond {
        choose|r: CivilSecond| r@ == align_second(v@)
    }
}

impl From<CivilHour> for CivilSecond {
    fn from(other: CivilHour) -> (r: CivilSecond) {
        let r = CivilSecond::from_hour(other);
        proof {
            let c = choose|c: CivilSecond| c@ == align_second(other@);
            CivilSecond::lemma_view_injective(r, c);
        }
        r
    }
}

impl vstd::std_specs::convert::FromSpecImpl<CivilHour> for CivilSecond {
    open spec fn obeys_from_spec() -> bool {
        true
    }

    open spec fn from_spec(v: CivilHour) -> CivilSecond {
        choose|r: CivilSecond| r@ == align_second(v@)
    }
}

impl From<CivilDay> for CivilSecond {
    fn from(other: CivilDay) -> (r: CivilSecond) {
        let r = CivilSecond::from_day(other);
        proof {
            let c = choose|c: CivilSecond| c@ == align_second(other@);
            CivilSecond::lemma_view_injective(r, c);
        }
        r
    }
}

impl vstd::std_specs::convert::FromSpecImpl<CivilDay> for CivilSecond {
    open spec fn obeys_from_spec() -> bool {
        true
    }

    open spec fn from_spec(v: CivilDay) -> CivilSecond {
        choose|r: CivilSecond| r@ == align_second(v@)
    }
}

impl From<CivilMonth> for CivilSecond {
    fn from(other: CivilMonth) -> (r: CivilSecond) {
        let r = CivilSecond::from_month(other);
        proof {
            let c = choose|c: CivilSecond| c@ == align_second(other@);
            CivilSecond::lemma_view_injective(r, c);
        }
        r
    }
}

impl vstd::std_specs::convert::FromSpecImpl<CivilMonth> for CivilSecond {
    open spec fn obeys_from_spec() -> bool {
        true
    }

    open spec fn from_spec(v: CivilMonth) -> CivilSecond {
        choose|r: CivilSecond| r@ == align_second(v@)
    }
}

impl From<CivilYear> for CivilSecond {
    fn from(other: CivilYear) -> (r: CivilSecond) {
        let r = CivilSecond::from_year(other);
        proof {
            let c = choose|c: CivilSecond| c@ == align_second(other@);
            CivilSecond::lemma_view_injective(r, c);
        }
        r
    }
}

impl vstd::std_specs::convert::FromSpecImpl<CivilYear> for CivilSecond {
    open spec fn obeys_from_spec() -> bool {
        true
    }

    open spec fn from_spec(v: CivilYear) -> CivilSecond {
        choose|r: CivilSecond| r@ == align_second(v@)
    }
}

impl CivilMinute {
    /// Realigns a [`CivilSecond`] to minute alignment.
    pub fn from_second(other: CivilSecond) -> (r: CivilMinute)
        ensures
            r@ == align_minute(other@),
    {
        proof {
            use_type_invariant(&other);
        }
        CivilMinute::from_fields(other.fields())
    }

    /// Realigns a [`CivilHour`] to minute alignment.
    pub fn from_hour(other: CivilHour) -> (r: CivilMinute)
        ensures
            r@ == align_minute(other@),
    {
        proof {
            use_type_invariant(&other);
        }
        CivilMinute::from_fields(other.fields())
    }

    /// Realigns a [`CivilDay`] to minute alignment.
    pub fn from_day(other: CivilDay) -> (r: CivilMinute)
        ensures
            r@ == align_minute(other@),
    {
        proof {
            use_type_invariant(&other);
        }
        CivilMinute::from_fields(other.fields())
    }

    /// Realigns a [`CivilMonth`] to minute alignment.
    pub fn from_month(other: CivilMonth) -> (r: CivilMinute)
        ensures
            r@ == align_minute(other@),
    {
        proof {
            use_type_invariant(&other);
        }
        CivilMinute::from_fields(other.fields())
    }

    /// Realigns a [`CivilYear`] to minute alignment.
    pub fn from_year(other: CivilYear) -> (r: CivilMinute)
        ensures
            r@ == align_minute(other@),
    {
        proof {
            use_type_invariant(&other);
        }
        CivilMinute::from_fields(other.fields())
    }
}

impl From<CivilSecond> for CivilMinute {
    fn from(other: CivilSecond) -> (r: CivilMinute) {
        let r = CivilMinute::from_second(other);
        proof {
            let c = choose|c: CivilMinute| c@ == align_minute(other@);
            CivilMinute::lemma_view_injective(r, c);
        }
        r
    }
}

impl vstd::std_specs::convert::FromSpecImpl<CivilSecond> for CivilMinute {
    open spec fn obeys_from_spec() -> bool {
        true
    }

    open spec fn from_spec(v: CivilSecond) -> CivilMinute {
        choose|r: CivilMinute| r@ == align_minute(v@)
    }
}

impl From<CivilHour> for CivilMinute {
    fn from(other: CivilHour) -> (r: CivilMinute) {
        let r = CivilMinute::from_hour(other);
        proof {
            let c = choose|c: CivilMinute| c@ == align_minute(other@);
            CivilMinute::lemma_view_injective(r, c);
        }
        r
    }
}

impl vstd::std_specs::convert::FromSpecImpl<CivilHour> for CivilMinute {
    open spec fn obeys_from_spec() -> bool {
        true
    }

    open spec fn from_spec(v: CivilHour) -> CivilMinute {
        choose|r: CivilMinute| r@ == align_minute(v@)
    }
}

impl From<CivilDay> for CivilMinute {
    fn from(other: CivilDay) -> (r: CivilMinute) {
        let r = CivilMinute::from_day(other);
        proof {
            let c = choose|c: CivilMinute| c@ == align_minute(other@);
            CivilMinute::lemma_view_injective(r, c);
        }
        r
    }
}

impl vstd::std_specs::convert::FromSpecImpl<CivilDay> for CivilMinute {
    open spec fn obeys_from_spec() -> bool {
        true
    }

    open spec fn from_spec(v: CivilDay) -> CivilMinute {
        choose|r: CivilMinute| r@ == align_minute(v@)
    }
}

impl From<CivilMonth> for CivilMinute {
    fn from(other: CivilMonth) -> (r: CivilMinute) {
        let r = CivilMinute::from_month(other);
        proof {
            let c = choose|c: CivilMinute| c@ == align_minute(other@);
            CivilMinute::lemma_view_injective(r, c);
        }
        r
    }
}

impl vstd::std_specs::convert::FromSpecImpl<CivilMonth> for CivilMinute {
    open spec fn obeys_from_spec() -> bool {
        true
    }

    open spec fn from_spec(v: CivilMonth) -> CivilMinute {
        choose|r: CivilMinute| r@ == align_minute(v@)
    }
}

impl From<CivilYear> for CivilMinute {
    fn from(other: CivilYear) -> (r: CivilMinute) {
        let r = CivilMinute::from_year(other);
        proof {
            let c = choose|c: CivilMinute| c@ == align_minute(other@);
            CivilMinute::lemma_view_injective(r, c);
        }
        r
    }
}

impl vstd::std_specs::convert::FromSpecImpl<CivilYear> for CivilMinute {
    open spec fn obeys_from_spec() -> bool {
        true
    }

    open spec fn from_spec(v: CivilYear) -> CivilMinute {
        choose|r: CivilMinute| r@ == align_minute(v@)
    }
}

impl CivilHour {
    /// Realigns a [`CivilSecond`] to hour alignment.
    pub fn from_second(other: CivilSecond) -> (r: CivilHour)
        ensures
            r@ == align_hour(other@),
    {
        proof {
            use_type_invariant(&other);
        }
        CivilHour::from_fields(other.fields())
    }

    /// Realigns a [`CivilMinute`] to hour alignment.
    pub fn from_minute(other: CivilMinute) -> (r: CivilHour)
        ensures
            r@ == align_hour(other@),
    {
        proof {
            use_type_invariant(&other);
        }
        CivilHour::from_fields(other.fields())
    }

    /// Realigns a [`CivilDay`] to hour alignment.
    pub fn from_day(other: CivilDay) -> (r: CivilHour)
        ensures
            r@ == align_hour(other@),
    {
        proof {
            use_type_invariant(&other);
        }
        CivilHour::from_fields(other.fields())
    }

    /// Realigns a [`CivilMonth`] to hour alignment.
    pub fn from_month(other: CivilMonth) -> (r: CivilHour)
        ensures
            r@ == align_hour(other@),
    {
        proof {
            use_type_invariant(&other);
        }
        CivilHour::from_fields(other.fields())
    }

    /// Realigns a [`CivilYear`] to hour alignment.
    pub fn from_year(other: CivilYear) -> (r: CivilHour)
        ensures
            r@ == align_hour(other@),
    {
        proof {
            use_type_invariant(&other);
        }
        CivilHour::from_fields(other.fields())
    }
}

impl From<CivilSecond> for CivilHour {
    fn from(other: CivilSecond) -> (r: CivilHour) {
        let r = CivilHour::from_second(other);
        proof {
            let c = choose|c: CivilHour| c@ == align_hour(other@);
            CivilHour::lemma_view_injective(r, c);
        }
        r
    }
}

impl vstd::std_specs::convert::FromSpecImpl<CivilSecond> for CivilHour {
    open spec fn obeys_from_spec() -> bool {
        true
    }

    open spec fn from_spec(v: CivilSecond) -> CivilHour {
        choose|r: CivilHour| r@ == align_hour(v@)
    }
}

impl From<CivilMinute> for CivilHour {
    fn from(other: CivilMinute) -> (r: CivilHour) {
        let r = CivilHour::from_minute(other);
        proof {
            let c = choose|c: CivilHour| c@ == align_hour(other@);
            CivilHour::lemma_view_injective(r, c);
        }
        r
    }
}

impl vstd::std_specs::convert::FromSpecImpl<CivilMinute> for CivilHour {
    open spec fn obeys_from_spec() -> bool {
        true
    }

    open spec fn from_spec(v: CivilMinute) -> CivilHour {
        choose|r: CivilHour| r@ == align_hour(v@)
    }
}

impl From<CivilDay> for CivilHour {
    fn from(other: CivilDay) -> (r: CivilHour) {
        let r = CivilHour::from_day(other);
        proof {
            let c = choose|c: CivilHour| c@ == align_hour(other@);
            CivilHour::lemma_view_injective(r, c);
        }
        r
    }
}

impl vstd::std_specs::convert::FromSpecImpl<CivilDay> for CivilHour {
    open spec fn obeys_from_spec() -> bool {
        true
    }

    open spec fn from_spec(v: CivilDay) -> CivilHour {
        choose|r: CivilHour| r@ == align_hour(v@)
    }
}

impl From<CivilMonth> for CivilHour {
    fn from(other: CivilMonth) -> (r: CivilHour) {
        let r = CivilHour::from_month(other);
        proof {
            let c = choose|c: CivilHour| c@ == align_hour(other@);
            CivilHour::lemma_view_injective(r, c);
        }
        r
    }
}

impl vstd::std_specs::convert::FromSpecImpl<CivilMonth> for CivilHour {
    open spec fn obeys_from_spec() -> bool {
        true
    }

    open spec fn from_spec(v: CivilMonth) -> CivilHour {
        choose|r: CivilHour| r@ == align_hour(v@)
    }
}

impl From<CivilYear> for CivilHour {
    fn from(other: CivilYear) -> (r: CivilHour) {
        let r = CivilHour::from_year(other);
        proof {
            let c = choose|c: CivilHour| c@ == align_hour(other@);
            CivilHour::lemma_view_injective(r, c);
        }
        r
    }
}

impl vstd::std_specs::convert::FromSpecImpl<CivilYear> for CivilHour {
    open spec fn obeys_from_spec() -> bool {
        true
    }

    open spec fn from_spec(v: CivilYear) -> CivilHour {
        choose|r: CivilHour| r@ == align_hour(v@)
    }
}

impl CivilDay {
    /// Realigns a [`CivilSecond`] to day alignment.
    pub fn from_second(other: CivilSecond) -> (r: CivilDay)
        ensures
            r@ == align_day(other@),
    {
        proof {
            use_type_invariant(&other);
        }
        CivilDay::from_fields(other.fields())
    }

    /// Realigns a [`CivilMinute`] to day alignment.
    pub fn from_minute(other: CivilMinute) -> (r: CivilDay)
        ensures
            r@ == align_day(other@),
    {
        proof {
            use_type_invariant(&other);
        }
        CivilDay::from_fields(other.fields())
    }

    /// Realigns a [`CivilHour`] to day alignment.
    pub fn from_hour(other: CivilHour) -> (r: CivilDay)
        ensures
            r@ == align_day(other@),
    {
        proof {
            use_type_invariant(&other);
        }
        CivilDay::from_fields(other.fields())
    }

    /// Realigns a [`CivilMonth`] to day alignment.
    pub fn from_month(other: CivilMonth) -> (r: CivilDay)
        ensures
            r@ == align_day(other@),
    {
        proof {
            use_type_invariant(&other);
        }
        CivilDay::from_fields(other.fields())
    }

    /// Realigns a [`CivilYear`] to day alignment.
    pub fn from_year(other: CivilYear) -> (r: CivilDay)
        ensures
            r@ == align_day(other@),
    {
        proof {
            use_type_invariant(&other);
        }
        CivilDay::from_fields(other.fields())
    }
}

impl From<CivilSecond> for CivilDay {
    fn from(other: CivilSecond) -> (r: CivilDay) {
        let r = CivilDay::from_second(other);
        proof {
            let c = choose|c: CivilDay| c@ == align_day(other@);
            CivilDay::lemma_view_injective(r, c);
        }
        r
    }
}

impl vstd::std_specs::convert::FromSpecImpl<CivilSecond> for CivilDay {
    open spec fn obeys_from_spec() -> bool {
        true
    }

    open spec fn from_spec(v: CivilSecond) -> CivilDay {
        choose|r: CivilDay| r@ == align_day(v@)
    }
}

impl From<CivilMinute> for CivilDay {
    fn from(other: CivilMinute) -> (r: CivilDay) {
        let r = CivilDay::from_minute(other);
        proof {
            let c = choose|c: CivilDay| c@ == align_day(other@);
            CivilDay::lemma_view_injective(r, c);
        }
        r
    }
}

impl vstd::std_specs::convert::FromSpecImpl<CivilMinute> for CivilDay {
    open spec fn obeys_from_spec() -> bool {
        true
    }

    open spec fn from_spec(v: CivilMinute) -> CivilDay {
        choose|r: CivilDay| r@ == align_day(v@)
    }
}

impl From<CivilHour> for CivilDay {
    fn from(other: CivilHour) -> (r: CivilDay) {
        let r = CivilDay::from_hour(other);
        proof {
            let c = choose|c: CivilDay| c@ == align_day(other@);
            CivilDay::lemma_view_injective(r, c);
        }
        r
    }
}

impl vstd::std_specs::convert::FromSpecImpl<CivilHour> for CivilDay {
    open spec fn obeys_from_spec() -> bool {
        true
    }

    open spec fn from_spec(v: CivilHour) -> CivilDay {
        choose|r: CivilDay| r@ == align_day(v@)
    }
}

impl From<CivilMonth> for CivilDay {
    fn from(other: CivilMonth) -> (r: CivilDay) {
        let r = CivilDay::from_month(other);
        proof {
            let c = choose|c: CivilDay| c@ == align_day(other@);
            CivilDay::lemma_view_injective(r, c);
        }
        r
    }
}

impl vstd::std_specs::convert::FromSpecImpl<CivilMonth> for CivilDay {
    open spec fn obeys_from_spec() -> bool {
        true
    }

    open spec fn from_spec(v: CivilMonth) -> CivilDay {
        choose|r: CivilDay| r@ == align_day(v@)
    }
}

impl From<CivilYear> for CivilDay {
    fn from(other: CivilYear) -> (r: CivilDay) {
        let r = CivilDay::from_year(other);
        proof {
            let c = choose|c: CivilDay| c@ == align_day(other@);
            CivilDay::lemma_view_injective(r, c);
        }
        r
    }
}

impl vstd::std_specs::convert::FromSpecImpl<CivilYear> for CivilDay {
    open spec fn obeys_from_spec() -> bool {
        true
    }

    open spec fn from_spec(v: CivilYear) -> CivilDay {
        choose|r: CivilDay| r@ == align_day(v@)
    }
}

impl CivilMonth {
    /// Realigns a [`CivilSecond`] to month alignment.
    pub fn from_second(other: CivilSecond) -> (r: CivilMonth)
        ensures
            r@ == align_month(other@),
    {
        proof {
            use_type_invariant(&other);
        }
        CivilMonth::from_fields(other.fields())
    }

    /// Realigns a [`CivilMinute`] to month alignment.
    pub fn from_minute(other: CivilMinute) -> (r: CivilMonth)
        ensures
            r@ == align_month(other@),
    {
        proof {
            use_type_invariant(&other);
        }
        CivilMonth::from_fields(other.fields())
    }

    /// Realigns a [`CivilHour`] to month alignment.
    pub fn from_hour(other: CivilHour) -> (r: CivilMonth)
        ensures
            r@ == align_month(other@),
    {
        proof {
            use_type_invariant(&other);
        }
        CivilMonth::from_fields(other.fields())
    }

    /// Realigns a [`CivilDay`] to month alignment.
    pub fn from_day(other: CivilDay) -> (r: CivilMonth)
        ensures
            r@ == align_month(other@),
    {
        proof {
            use_type_invariant(&other);
        }
        CivilMonth::from_fields(other.fields())
    }

    /// Realigns a [`CivilYear`] to month alignment.
    pub fn from_year(other: CivilYear) -> (r: CivilMonth)
        ensures
            r@ == align_month(other@),
    {
        proof {
            use_type_invariant(&other);
        }
        CivilMonth::from_fields(other.fields())
    }
}

impl From<CivilSecond> for CivilMonth {
    fn from(other: CivilSecond) -> (r: CivilMonth) {
        let r = CivilMonth::from_second(other);
        proof {
            let c = choose|c: CivilMonth| c@ == align_month(other@);
            CivilMonth::lemma_view_injective(r, c);
        }
        r
    }
}

impl vstd::std_specs::convert::FromSpecImpl<CivilSecond> for CivilMonth {
    open spec fn obeys_from_spec() -> bool {
        true
    }

    open spec fn from_spec(v: CivilSecond) -> CivilMonth {
        choose|r: CivilMonth| r@ == align_month(v@)
    }
}

impl From<CivilMinute> for CivilMonth {
    fn from(other: CivilMinute) -> (r: CivilMonth) {
        let r = CivilMonth::from_minute(other);
        proof {
            let c = choose|c: CivilMonth| c@ == align_month(other@);
            CivilMonth::lemma_view_injective(r, c);
        }
        r
    }
}

impl vstd::std_specs::convert::FromSpecImpl<CivilMinute> for CivilMonth {
    open spec fn obeys_from_spec() -> bool {
        true
    }

    open spec fn from_spec(v: CivilMinute) -> CivilMonth {
        choose|r: CivilMonth| r@ == align_month(v@)
    }
}

impl From<CivilHour> for CivilMonth {
    fn from(other: CivilHour) -> (r: CivilMonth) {
        let r = CivilMonth::from_hour(other);
        proof {
            let c = choose|c: CivilMonth| c@ == align_month(other@);
            CivilMonth::lemma_view_injective(r, c);
        }
        r
    }
}

impl vstd::std_specs::convert::FromSpecImpl<CivilHour> for CivilMonth {
    open spec fn obeys_from_spec() -> bool {
        true
    }

    open spec fn from_spec(v: CivilHour) -> CivilMonth {
        choose|r: CivilMonth| r@ == align_month(v@)
    }
}

impl From<CivilDay> for CivilMonth {
    fn from(other: CivilDay) -> (r: CivilMonth) {
        let r = CivilMonth::from_day(other);
        proof {
            let c = choose|c: CivilMonth| c@ == align_month(other@);
            CivilMonth::lemma_view_injective(r, c);
        }
        r
    }
}

impl vstd::std_specs::convert::FromSpecImpl<CivilDay> for CivilMonth {
    open spec fn obeys_from_spec() -> bool {
        true
    }

    open spec fn from_spec(v: CivilDay) -> CivilMonth {
        choose|r: CivilMonth| r@ == align_month(v@)
    }
}

impl From<CivilYear> for CivilMonth {
    fn from(other: CivilYear) -> (r: CivilMonth) {
        let r = CivilMonth::from_year(other);
        proof {
            let c = choose|c: CivilMonth| c@ == align_month(other@);
            CivilMonth::lemma_view_injective(r, c);
        }
        r
    }
}

impl vstd::std_specs::convert::FromSpecImpl<CivilYear> for CivilMonth {
    open spec fn obeys_from_spec() -> bool {
        true
    }

    open spec fn from_spec(v: CivilYear) -> CivilMonth {
        choose|r: CivilMonth| r@ == align_month(v@)
    }
}

impl CivilYear {
    /// Realigns a [`CivilSecond`] to year alignment.
    pub fn from_second(other: CivilSecond) -> (r: CivilYear)
        ensures
            r@ == align_year(other@),
    {
        proof {
            use_type_invariant(&other);
        }
        CivilYear::from_fields(other.fields())
    }

    /// Realigns a [`CivilMinute`] to year alignment.
    pub fn from_minute(other: CivilMinute) -> (r: CivilYear)
        ensures
            r@ == align_year(other@),
    {
        proof {
            use_type_invariant(&other);
        }
        CivilYear::from_fields(other.fields())
    }

    /// Realigns a [`CivilHour`] to year alignment.
    pub fn from_hour(other: CivilHour) -> (r: CivilYear)
        ensures
            r@ == align_year(other@),
    {
        proof {
            use_type_invariant(&other);
        }
        CivilYear::from_fields(other.fields())
    }

    /// Realigns a [`CivilDay`] to year alignment.
    pub fn from_day(other: CivilDay) -> (r: CivilYear)
        ensures
            r@ == align_year(other@),
    {
        proof {
            use_type_invariant(&other);
        }
        CivilYear::from_fields(other.fields())
    }

    /// Realigns a [`CivilMonth`] to year alignment.
    pub fn from_month(other: CivilMonth) -> (r: CivilYear)
        ensures
            r@ == align_year(other@),
    {
        proof {
            use_type_invariant(&other);
        }
        CivilYear::from_fields(other.fields())
    }
}

impl From<CivilSecond> for CivilYear {
    fn from(other: CivilSecond) -> (r: CivilYear) {
        let r = CivilYear::from_second(other);
        proof {
            let c = choose|c: CivilYear| c@ == align_year(other@);
            CivilYear::lemma_view_injective(r, c);
        }
        r
    }
}

impl vstd::std_specs::convert::FromSpecImpl<CivilSecond> for CivilYear {
    open spec fn obeys_from_spec() -> bool {
        true
    }

    open spec fn from_spec(v: CivilSecond) -> CivilYear {
        choose|r: CivilYear| r@ == align_year(v@)
    }
}

impl From<CivilMinute> for CivilYear {
    fn from(other: CivilMinute) -> (r: CivilYear) {
        let r = CivilYear::from_minute(other);
        proof {
            let c = choose|c: CivilYear| c@ == align_year(other@);
            CivilYear::lemma_view_injective(r, c);
        }
        r
    }
}

impl vstd::std_specs::convert::FromSpecImpl<CivilMinute> for CivilYear {
    open spec fn obeys_from_spec() -> bool {
        true
    }

    open spec fn from_spec(v: CivilMinute) -> CivilYear {
        choose|r: CivilYear| r@ == align_year(v@)
    }
}

impl From<CivilHour> for CivilYear {
    fn from(other: CivilHour) -> (r: CivilYear) {
        let r = CivilYear::from_hour(other);
        proof {
            let c = choose|c: CivilYear| c@ == align_year(other@);
            CivilYear::lemma_view_injective(r, c);
        }
        r
    }
}

impl vstd::std_specs::convert::FromSpecImpl<CivilHour> for CivilYear {
    open spec fn obeys_from_spec() -> bool {
        true
    }

    open spec fn from_spec(v: CivilHour) -> CivilYear {
        choose|r: CivilYear| r@ == align_year(v@)
    }
}

impl From<CivilDay> for CivilYear {
    fn from(other: CivilDay) -> (r: CivilYear) {
        let r = CivilYear::from_day(other);
        proof {
            let c = choose|c: CivilYear| c@ == align_year(other@);
            CivilYear::lemma_view_injective(r, c);
        }
        r
    }
}

impl vstd::std_specs::convert::FromSpecImpl<CivilDay> for CivilYear {
    open spec fn obeys_from_spec() -> bool {
        true
    }

    open spec fn from_spec(v: CivilDay) -> CivilYear {
        choose|r: CivilYear| r@ == align_year(v@)
    }
}

impl From<CivilMonth> for CivilYear {
    fn from(other: CivilMonth) -> (r: CivilYear) {
        let r = CivilYear::from_month(other);
        proof {
            let c = choose|c: CivilYear| c@ == align_year(other@);
            CivilYear::lemma_view_injective(r, c);
        }
        r
    }
}

impl vstd::std_specs::convert::FromSpecImpl<CivilMonth> for CivilYear {
    open spec fn obeys_from_spec() -> bool {
        true
    }

    open spec fn from_spec(v: CivilMonth) -> CivilYear {
        choose|r: CivilYear| r@ == align_year(v@)
    }
}

} // verus!
