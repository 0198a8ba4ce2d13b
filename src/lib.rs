//! Civil time: timezone-independent Gregorian year/month/day/hour/minute/second
//! values with normalization and aligned arithmetic.
use vstd::prelude::*;

pub mod calendar;
pub mod civil;
pub mod compare;
pub mod convert;
pub mod fields;
pub mod granularity;
pub mod laws;
pub mod weekday;

pub use crate::civil::{
    BuildCivilTime, Builder, CivilDay, CivilHour, CivilMinute, CivilMonth, CivilSecond, CivilTime,
    CivilYear,
};
pub use crate::fields::{DiffType, Fields, YearType};
pub use crate::weekday::Weekday;

verus! {

} // verus!
