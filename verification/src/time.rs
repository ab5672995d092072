//! Points in time, at the microsecond precision of the database.

use vstd::prelude::*;

verus! {

/// Microseconds in a day.
pub const DAY_MICROS: i64 = 86_400_000_000;

/// The first instant of the calendar, in microseconds since 1970 (UTC).
pub const MIN_MICROS: i64 = -8_334_601_228_800_000_000;

/// The last instant of the calendar, in microseconds since 1970 (UTC).
pub const MAX_MICROS: i64 = 8_210_266_876_799_999_999;

/// An instant of the calendar: microseconds since 1970-01-01T00:00:00 UTC.
#[derive(Clone, Copy, Debug, PartialEq, Eq, Structural)]
pub struct Timestamp {
    micros: i64,
}

impl View for Timestamp {
    type V = i64;

    closed spec fn view(&self) -> i64 {
        self.micros
    }
}

/// What `chrono` writes for an instant in the RFC 3339 form.
pub uninterp spec fn rfc3339_text(micros: i64) -> Seq<char>;

/// What `chrono` writes for the day with this number, counted from 1970-01-01.
pub uninterp spec fn date_text(day: i32) -> Seq<char>;

/// The number of the day on which an instant falls, in UTC.
pub open spec fn day_number(micros: int) -> int {
    micros / (DAY_MICROS as int)
}

/// Whether an instant lies more than `days` days before `now`.
pub open spec fn older_than(micros: int, days: int, now: int) -> bool {
    micros < now - days * DAY_MICROS
}

/// The RFC 3339 text of an instant in UTC.
///
/// Calls `chrono::DateTime::from_timestamp_micros`, which rejects an instant
/// only outside the bounds below, and `to_rfc3339` on the result. The text is
/// named.
#[verifier::external_body]
fn format_rfc3339(micros: i64) -> (r: String)
    requires
        MIN_MICROS <= micros <= MAX_MICROS,
    ensures
        r@ == rfc3339_text(micros),
{
    chrono::DateTime::from_timestamp_micros(micros).unwrap().to_rfc3339()
}

/// The calendar date of a day.
///
/// Calls `chrono::NaiveDate::from_epoch_days`, which rejects a day only outside
/// the bounds below, and the `Display` of the result, which writes year, month
/// and day. The text is named; of the name it is claimed that distinct days of
/// the calendar have distinct texts.
#[verifier::external_body]
fn format_date(day: i32) -> (r: String)
    requires
        -96_465_292 <= day <= 95_026_236,
    ensures
        r@ == date_text(day),
        forall|other: i32|
            -96_465_292 <= other <= 95_026_236 && r@ == #[trigger] date_text(other) ==> other
                == day,
{
    chrono::NaiveDate::from_epoch_days(day).unwrap().to_string()
}

impl Timestamp {
    #[verifier::type_invariant]
    spec fn in_calendar(self) -> bool {
        MIN_MICROS <= self.micros <= MAX_MICROS
    }

    /// The instant that lies `micros` microseconds after 1970 began, where the
    /// calendar has it.
    pub fn from_micros(micros: i64) -> (r: Option<Timestamp>)
        ensures
            r is Some <==> MIN_MICROS <= micros <= MAX_MICROS,
            r is Some ==> r->0@ == micros,
    {
        if MIN_MICROS <= micros && micros <= MAX_MICROS {
            Some(Timestamp { micros })
        } else {
            None
        }
    }

    /// Microseconds since 1970 began.
    pub fn micros(&self) -> (r: i64)
        ensures
            r == self@,
            MIN_MICROS <= r <= MAX_MICROS,
    {
        proof {
            use_type_invariant(self);
        }
        self.micros
    }

    /// Whether this instant lies before `other`.
    pub fn is_before(&self, other: &Timestamp) -> (r: bool)
        ensures
            r == (self@ < other@),
    {
        self.micros < other.micros
    }

    /// Whether this instant lies more than `days` days before `now`.
    pub fn is_older_than(&self, days: u16, now: &Timestamp) -> (r: bool)
        ensures
            r == older_than(self@ as int, days as int, now@ as int),
    {
        proof {
            use_type_invariant(self);
            use_type_invariant(now);
        }
        self.micros + (days as i64) * DAY_MICROS < now.micros
    }

    /// The number of the day on which this instant falls, in UTC.
    pub fn day(&self) -> (r: i32)
        ensures
            r == day_number(self@ as int),
            -96_465_292 <= r <= 95_026_236,
    {
        proof {
            use_type_invariant(self);
        }
        let m: i64 = self.micros;
        if m >= 0 {
            ((m as u64) / 86_400_000_000u64) as i32
        } else {
            let back: u64 = (-(m + 1)) as u64;
            let whole: i64 = (back / 86_400_000_000u64) as i64;
            (-1 - whole) as i32
        }
    }

    /// The RFC 3339 text of this instant in UTC.
    pub fn to_rfc3339(&self) -> (r: String)
        ensures
            r@ == rfc3339_text(self@),
    {
        proof {
            use_type_invariant(self);
        }
        format_rfc3339(self.micros)
    }

    /// The UTC date of this instant, and the fact that another instant has the
    /// same text only where it falls on the same day.
    pub fn to_date(&self) -> (r: String)
        ensures
            r@ == date_text(day_number(self@ as int) as i32),
            forall|other: i32|
                -96_465_292 <= other <= 95_026_236 && r@ == #[trigger] date_text(other) ==> other
                    == day_number(self@ as int),
    {
        format_date(self.day())
    }
}

/// A day is twenty-four hours from one midnight (UTC) to the next, numbered from the
/// one on which 1970 began, and an instant is more than so many days old exactly
/// where more than that many times twenty-four hours have passed since.
pub proof fn law_days_have_twenty_four_hours(micros: int, days: int, now: int)
    ensures
        day_number(micros) * 86_400_000_000 <= micros < (day_number(micros) + 1) * 86_400_000_000,
        older_than(micros, days, now) <==> now - micros > days * 86_400_000_000,
{
}

} // verus!
