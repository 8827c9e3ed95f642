//! Calendar dates as (year, month, day).
use vstd::prelude::*;


verus! {

/// A calendar date.
#[derive(Clone, Copy, Debug, PartialEq, Eq, Structural)]
pub struct Date {
    pub year: i32,
    pub month: u32,
    pub day: u32,
}

/// `a` is on or before `b`: the chronological order, which on calendar
/// dates is the order of (year, month, day) compared field by field.
pub open spec fn date_le(a: Date, b: Date) -> bool {
    a.year < b.year || (a.year == b.year && (a.month < b.month || (a.month == b.month && a.day <= b.day)))
}

impl Date {
    /// The date as a (year, month, day) triple.
    pub open spec fn parts(self) -> (int, int, int) {
        (self.year as int, self.month as int, self.day as int)
    }

    /// `self` is on or before `other`.
    pub fn le(&self, other: &Date) -> (r: bool)
        ensures
            r == date_le(*self, *other),
    {
        self.year < other.year || (self.year == other.year && (self.month < other.month || (
        self.month == other.month && self.day <= other.day)))
    }
}

} // verus!
