use vstd::prelude::*;

verus! {

/// Smallest year that a date may carry.
pub const MIN_YEAR: i32 = -9999;

/// Largest year that a date may carry.
pub const MAX_YEAR: i32 = 9999;

/// Nanoseconds in one day.
pub const NANOS_PER_DAY: i128 = 86_400_000_000_000;

/// A date of the proleptic Gregorian calendar.
#[derive(Clone, Copy, Debug, PartialEq, Eq, Structural)]
pub struct CalDate {
    pub year: i32,
    pub month: u8,
    pub day: u8,
}

/// A time of day, local time.
#[derive(Clone, Copy, Debug, PartialEq, Eq, Structural)]
pub struct TimeOfDay {
    pub hour: u8,
    pub minute: u8,
    pub second: u8,
    pub nanosecond: u32,
}

pub open spec fn is_leap_year(y: int) -> bool {
    (y % 4 == 0 && y % 100 != 0) || y % 400 == 0
}

pub open spec fn days_in_month(y: int, m: int) -> int {
    if m == 2 {
        if is_leap_year(y) { 29 } else { 28 }
    } else if m == 4 || m == 6 || m == 9 || m == 11 {
        30
    } else {
        31
    }
}

/// The name that the text of a date in the given format stands for, as
/// (year, month, day).
pub uninterp spec fn date_from_text(text: Seq<char>, format: Seq<char>) -> Option<(int, int, int)>;

impl CalDate {
    /// The date exists in the calendar and lies in the supported range of years.
    pub open spec fn wf(self) -> bool {
        &&& MIN_YEAR <= self.year <= MAX_YEAR
        &&& 1 <= self.month <= 12
        &&& 1 <= self.day <= days_in_month(self.year as int, self.month as int)
    }

    /// A number that orders dates as the calendar does.
    pub open spec fn key(self) -> int {
        self.year * 512 + self.month * 32 + self.day
    }

    /// The date that follows this one, if it lies in the supported range.
    pub open spec fn successor(self) -> Option<CalDate> {
        if self.day < days_in_month(self.year as int, self.month as int) {
            Some(CalDate { day: (self.day + 1) as u8, ..self })
        } else if self.month < 12 {
            Some(CalDate { month: (self.month + 1) as u8, day: 1, ..self })
        } else if self.year < MAX_YEAR {
            Some(CalDate { year: (self.year + 1) as i32, month: 1, day: 1 })
        } else {
            None
        }
    }

    /// Days from 1970-01-01 to this date.
    pub open spec fn day_number(self) -> int {
        let y = if self.month <= 2 { self.year - 1 } else { self.year as int };
        let mp = if self.month > 2 { self.month - 3 } else { self.month + 9 };
        let doy = (153 * mp + 2) / 5 + self.day - 1;
        365 * y + y / 4 - y / 100 + y / 400 + doy - 719468
    }

    /// The day of the week, counted from Monday (0) to Sunday (6).
    pub open spec fn weekday(self) -> int {
        (self.day_number() + 3) % 7
    }

    /// A measure that each step to the following date makes smaller.
    pub open spec fn distance_to_end(self) -> int {
        (MAX_YEAR - self.year) * 372 + (12 - self.month) * 31 + (31 - self.day)
    }

    /// The (year, month, day) triple of the date.
    pub open spec fn triple(self) -> (int, int, int) {
        (self.year as int, self.month as int, self.day as int)
    }

    /// Whether `self` comes no later than `other`.
    pub fn le(&self, other: &CalDate) -> (r: bool)
        ensures
            r == (self.key() <= other.key()),
    {
        let a: i64 = self.year as i64 * 512 + self.month as i64 * 32 + self.day as i64;
        let b: i64 = other.year as i64 * 512 + other.month as i64 * 32 + other.day as i64;
        a <= b
    }
}

/// Steps to the following date keep a date well formed and reduce the
/// distance to the last supported date.
pub proof fn lemma_successor(d: CalDate)
    requires
        d.wf(),
    ensures
        d.distance_to_end() >= 0,
        d.successor() matches Some(n) ==> n.wf() && 0 <= n.distance_to_end() < d.distance_to_end(),
{
}

impl TimeOfDay {
    pub open spec fn wf(self) -> bool {
        self.hour < 24 && self.minute < 60 && self.second < 60 && self.nanosecond < 1_000_000_000
    }

    /// Nanoseconds since midnight.
    pub open spec fn nanos(self) -> int {
        ((self.hour * 60 + self.minute) * 60 + self.second) * 1_000_000_000 + self.nanosecond
    }

    /// Nanoseconds since midnight.
    pub fn nanos_of_day(&self) -> (r: i128)
        ensures
            r == self.nanos(),
    {
        ((self.hour as i128 * 60 + self.minute as i128) * 60 + self.second as i128) * 1_000_000_000
            + self.nanosecond as i128
    }

    /// Whether `self` is no later than `other` in the day.
    pub fn le(&self, other: &TimeOfDay) -> (r: bool)
        ensures
            r == (self.nanos() <= other.nanos()),
    {
        self.nanos_of_day() <= other.nanos_of_day()
    }
}

/// Relies on time's `format_description::parse_borrowed` (format version 1)
/// and `Date::parse`: the text is read as a date in the given format; a date
/// of the crate always exists in the calendar.
#[verifier::external_body]
pub(crate) fn parse_date(text: &str, format: &str) -> (r: Option<CalDate>)
    ensures
        r matches Some(d) ==> d.wf() && date_from_text(text@, format@) == Some(d.triple()),
        r is None ==> date_from_text(text@, format@) is None,
{
    let items = time::format_description::parse_borrowed::<1>(format).ok()?;
    let d = time::Date::parse(text, &items).ok()?;
    Some(CalDate { year: d.year(), month: u8::from(d.month()), day: d.day() })
}

/// Relies on time's `Date::weekday` and `Weekday::number_days_from_monday`.
#[verifier::external_body]
pub(crate) fn weekday_of(d: CalDate) -> (r: u8)
    requires
        d.wf(),
    ensures
        r as int == d.weekday(),
{
    let month = time::Month::try_from(d.month).unwrap();
    let date = time::Date::from_calendar_date(d.year, month, d.day).unwrap();
    date.weekday().number_days_from_monday()
}

/// Relies on time's `Date::next_day`: the following calendar date, none after
/// the last supported one.
#[verifier::external_body]
pub(crate) fn next_day(d: CalDate) -> (r: Option<CalDate>)
    requires
        d.wf(),
    ensures
        r == d.successor(),
{
    let month = time::Month::try_from(d.month).unwrap();
    let date = time::Date::from_calendar_date(d.year, month, d.day).unwrap();
    let n = date.next_day()?;
    Some(CalDate { year: n.year(), month: u8::from(n.month()), day: n.day() })
}

/// Relies on time's `Time::from_hms`: hours below 24 and minutes below 60 make
/// a time of day.
#[verifier::external_body]
pub(crate) fn time_from_hm(hour: u8, minute: u8) -> (r: Option<TimeOfDay>)
    ensures
        r is Some <==> (hour < 24 && minute < 60),
        r matches Some(t) ==> t == (TimeOfDay { hour, minute, second: 0, nanosecond: 0 }),
{
    let t = time::Time::from_hms(hour, minute, 0).ok()?;
    Some(TimeOfDay { hour: t.hour(), minute: t.minute(), second: t.second(), nanosecond: t.nanosecond() })
}

} // verus!
