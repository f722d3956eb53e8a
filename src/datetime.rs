use chrono::{Datelike, Timelike};
use vstd::prelude::*;

verus! {

/// A naive (timezone-less) date-time, held as its calendar fields.
///
/// `nanosecond` ranges up to 1,999,999,999: values from 1,000,000,000 on stand
/// for a leap second, as in chrono's `NaiveTime`.
#[derive(Clone, Copy, Debug, PartialEq, Eq, Structural)]
pub struct DateTime {
    pub year: i32,
    pub month: u32,
    pub day: u32,
    pub hour: u32,
    pub minute: u32,
    pub second: u32,
    pub nanosecond: u32,
}

impl DateTime {
    /// The field ranges that every date-time read from a save file satisfies.
    pub open spec fn wf(self) -> bool {
        &&& 1 <= self.month <= 12
        &&& 1 <= self.day <= 31
        &&& self.hour < 24
        &&& self.minute < 60
        &&& self.second < 60
        &&& self.nanosecond < 2_000_000_000
    }

    /// Chronological order: lexicographic over (year, month, day, hour, minute, second, nanosecond).
    pub open spec fn lt(self, o: DateTime) -> bool {
        if self.year != o.year {
            self.year < o.year
        } else if self.month != o.month {
            self.month < o.month
        } else if self.day != o.day {
            self.day < o.day
        } else if self.hour != o.hour {
            self.hour < o.hour
        } else if self.minute != o.minute {
            self.minute < o.minute
        } else if self.second != o.second {
            self.second < o.second
        } else {
            self.nanosecond < o.nanosecond
        }
    }

    pub open spec fn le(self, o: DateTime) -> bool {
        self.lt(o) || self == o
    }

    /// The start (midnight) of this date-time's calendar day.
    pub open spec fn spec_midnight(self) -> DateTime {
        DateTime { hour: 0, minute: 0, second: 0, nanosecond: 0, ..self }
    }

    /// Whether `self` comes strictly before `o`.
    pub fn is_before(&self, o: &DateTime) -> (r: bool)
        ensures
            r == self.lt(*o),
    {
        if self.year != o.year {
            self.year < o.year
        } else if self.month != o.month {
            self.month < o.month
        } else if self.day != o.day {
            self.day < o.day
        } else if self.hour != o.hour {
            self.hour < o.hour
        } else if self.minute != o.minute {
            self.minute < o.minute
        } else if self.second != o.second {
            self.second < o.second
        } else {
            self.nanosecond < o.nanosecond
        }
    }

    /// Drops the time of day: the same calendar date at 00:00:00.
    pub fn midnight(&self) -> (r: DateTime)
        ensures
            r == self.spec_midnight(),
            self.wf() ==> r.wf(),
    {
        DateTime { hour: 0, minute: 0, second: 0, nanosecond: 0, ..*self }
    }
}

/// `lt` is a strict total order on date-times.
pub proof fn lemma_lt_total(a: DateTime, b: DateTime)
    ensures
        !(a.lt(b) && b.lt(a)),
        !a.lt(a),
        a.lt(b) || b.lt(a) || a == b,
{
}

/// `lt` is transitive.
pub proof fn lemma_lt_transitive(a: DateTime, b: DateTime, c: DateTime)
    requires
        a.lt(b),
        b.lt(c),
    ensures
        a.lt(c),
{
}

/// What chrono's parser makes of a text under the save file's timestamp format.
pub uninterp spec fn parsed_datetime(s: Seq<char>) -> Option<DateTime>;

/// Relies on `chrono::NaiveDateTime::parse_from_str` with the format
/// `%Y-%m-%d %H:%M:%S`, and on chrono's accessors, whose documented ranges are
/// month 1..=12, day 1..=31, hour 0..=23, minute 0..=59, second 0..=59 and
/// nanosecond below 2,000,000,000.
#[verifier::external_body]
pub(crate) fn parse_datetime_text(s: &str) -> (r: Option<DateTime>)
    ensures
        r == parsed_datetime(s@),
        r matches Some(d) ==> d.wf(),
{
    let d = chrono::NaiveDateTime::parse_from_str(s, "%Y-%m-%d %H:%M:%S").ok()?;
    Some(DateTime {
        year: d.year(),
        month: d.month(),
        day: d.day(),
        hour: d.hour(),
        minute: d.minute(),
        second: d.second(),
        nanosecond: d.nanosecond(),
    })
}

} // verus!
