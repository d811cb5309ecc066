use chrono::Datelike;
use vstd::prelude::*;

verus! {

/// A calendar date with no time of day.
#[derive(Clone, Copy, Debug, PartialEq, Eq, Structural)]
pub struct CalendarDate {
    pub year: i32,
    pub month: u32,
    pub day: u32,
}

/// The (year, month, day) that chrono reads from `s` in the format `%Y-%m-%d`,
/// or `None` where chrono rejects `s`.
pub uninterp spec fn iso_date_fields(s: Seq<char>) -> Option<(int, int, int)>;

/// The date that `s` denotes at the wire edge, if it is one.
pub open spec fn parsed_date(s: Seq<char>) -> Option<CalendarDate> {
    match iso_date_fields(s) {
        Some(t) => Some(CalendarDate { year: t.0 as i32, month: t.1 as u32, day: t.2 as u32 }),
        None => None,
    }
}

/// Relies on chrono::NaiveDate::parse_from_str with the format `%Y-%m-%d`: the
/// outcome depends on the text alone, and a date it yields has a month in 1..=12,
/// a day in 1..=31 and a year that fits in `i32` (chrono's `Datelike` accessors).
#[verifier::external_body]
fn chrono_parse_iso(s: &str) -> (r: Option<CalendarDate>)
    ensures
        iso_date_fields(s@) is Some <==> r is Some,
        r matches Some(d) ==> iso_date_fields(s@) == Some(
            (d.year as int, d.month as int, d.day as int),
        ),
        r matches Some(d) ==> 1 <= d.month <= 12 && 1 <= d.day <= 31,
{
    match chrono::NaiveDate::parse_from_str(s, "%Y-%m-%d") {
        Ok(d) => Some(CalendarDate { year: d.year(), month: d.month(), day: d.day() }),
        Err(_) => None,
    }
}

/// Reads an ISO-8601 `YYYY-MM-DD` date.
pub fn parse_date(s: &str) -> (r: Option<CalendarDate>)
    ensures
        r == parsed_date(s@),
        r matches Some(d) ==> 1 <= d.month <= 12 && 1 <= d.day <= 31,
{
    chrono_parse_iso(s)
}

impl CalendarDate {
    /// Whether two dates name the same calendar day.
    pub fn same_day(&self, other: &CalendarDate) -> (r: bool)
        ensures
            r == (*self == *other),
    {
        self.year == other.year && self.month == other.month && self.day == other.day
    }
}

} // verus!
