//! Instants on the UTC time line, the day each falls on, and the two texts in
//! which a report shows a day.
use chrono::TimeZone;
use vstd::prelude::*;

verus! {

/// Seconds in a day.
pub const SECONDS_PER_DAY: i64 = 86_400;

/// The strftime pattern of the date in a section heading: day of the month
/// padded with a space, full month name, year.
pub const HEADER_DATE_FORMAT: &'static str = "%e %B %Y";

/// The strftime pattern of a date in a table cell: year, month and day in
/// digits.
pub const CELL_DATE_FORMAT: &'static str = "%Y-%m-%d";

/// What chrono writes for the instant `secs` seconds after the Unix epoch,
/// in UTC, under the strftime pattern `pattern`; `None` where chrono has no
/// such instant or rejects the pattern.
pub uninterp spec fn utc_text(secs: int, pattern: Seq<char>) -> Option<Seq<char>>;

/// Calls chrono's `TimeZone::timestamp_opt` on `Utc` with no nanoseconds,
/// then `DateTime::format` with `pattern`, and writes the result into a
/// string. The contract gives the outcome a name and claims nothing else of
/// it: both calls depend on their arguments alone. Only the two patterns of
/// a report are ever handed in.
#[verifier::external_body]
fn format_utc(secs: i64, pattern: &str) -> (text: Option<String>)
    requires
        pattern@ == HEADER_DATE_FORMAT@ || pattern@ == CELL_DATE_FORMAT@,
    ensures
        text.deep_view() == utc_text(secs as int, pattern@),
{
    let instant = chrono::Utc.timestamp_opt(secs, 0).single()?;
    let mut text = String::new();
    instant.format(pattern).write_to(&mut text).ok()?;
    Some(text)
}

/// Whether both report texts can be written for the instant `secs`.
pub open spec fn writable(secs: int) -> bool {
    utc_text(secs, HEADER_DATE_FORMAT@) is Some && utc_text(secs, CELL_DATE_FORMAT@) is Some
}

/// The date of the instant `secs` as a section heading shows it.
pub open spec fn heading_text(secs: int) -> Seq<char> {
    utc_text(secs, HEADER_DATE_FORMAT@)->0
}

/// The date of the instant `secs` as a table cell shows it.
pub open spec fn cell_text(secs: int) -> Seq<char> {
    utc_text(secs, CELL_DATE_FORMAT@)->0
}

/// The number of the UTC day on which `secs` falls, counted from the epoch.
pub open spec fn day_of(secs: int) -> int {
    secs / (SECONDS_PER_DAY as int)
}

/// An instant for which both report texts exist.
#[derive(Clone, Copy, Debug)]
pub struct Instant {
    secs: i64,
}

impl View for Instant {
    type V = int;

    closed spec fn view(&self) -> int {
        self.secs as int
    }
}

impl DeepView for Instant {
    type V = int;

    open spec fn deep_view(&self) -> int {
        self@
    }
}

impl Instant {
    #[verifier::type_invariant]
    spec fn well_formed(self) -> bool {
        writable(self.secs as int)
    }

    /// The instant `secs` seconds after the Unix epoch, if the report can
    /// show it.
    pub fn from_seconds(secs: i64) -> (r: Option<Instant>)
        ensures
            r is Some <==> writable(secs as int),
            r matches Some(t) ==> t@ == secs,
    {
        if format_utc(secs, HEADER_DATE_FORMAT).is_some() && format_utc(
            secs,
            CELL_DATE_FORMAT,
        ).is_some() {
            Some(Instant { secs })
        } else {
            None
        }
    }

    /// Seconds since the Unix epoch.
    pub fn seconds(&self) -> (secs: i64)
        ensures
            secs == self@,
            writable(self@),
    {
        proof {
            use_type_invariant(self);
        }
        self.secs
    }

    /// The UTC day on which the instant falls.
    pub fn date(&self) -> (date: Date)
        ensures
            date.witness() == self@,
    {
        Date { within: *self }
    }

    /// The number of the UTC day on which the instant falls.
    pub fn day(&self) -> (day: i64)
        ensures
            day == day_of(self@),
    {
        let secs = self.secs;
        if secs >= 0 {
            secs / SECONDS_PER_DAY
        } else {
            let back: i64 = -(secs + 1);
            let day: i64 = -1 - back / SECONDS_PER_DAY;
            assert(day == day_of(secs as int)) by (nonlinear_arith)
                requires
                    secs < 0,
                    back == -(secs + 1),
                    day == -1 - back / 86_400,
            ;
            day
        }
    }

    /// The date as a section heading shows it.
    pub fn heading(&self) -> (text: String)
        ensures
            text@ == heading_text(self@),
    {
        proof {
            use_type_invariant(self);
        }
        match format_utc(self.secs, HEADER_DATE_FORMAT) {
            Some(text) => text,
            None => vstd::pervasive::unreached(),
        }
    }

    /// The date as a table cell shows it.
    pub fn cell(&self) -> (text: String)
        ensures
            text@ == cell_text(self@),
    {
        proof {
            use_type_invariant(self);
        }
        match format_utc(self.secs, CELL_DATE_FORMAT) {
            Some(text) => text,
            None => vstd::pervasive::unreached(),
        }
    }
}

/// A UTC calendar day, known through an instant that falls on it.
#[derive(Clone, Copy, Debug)]
pub struct Date {
    within: Instant,
}

impl Date {
    /// The instant through which the day is known, in seconds.
    pub closed spec fn witness(&self) -> int {
        self.within@
    }

    /// The number of the day, counted from the epoch.
    pub open spec fn day(&self) -> int {
        day_of(self.witness())
    }

    /// The number of the day, counted from the epoch.
    pub fn number(&self) -> (day: i64)
        ensures
            day == self.day(),
    {
        self.within.day()
    }

    /// The day as a section heading shows it.
    pub fn heading(&self) -> (text: String)
        ensures
            text@ == heading_text(self.witness()),
    {
        self.within.heading()
    }
}

} // verus!
