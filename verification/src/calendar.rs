//! Instants and the calendar date they fall on.

use chrono::Datelike;
use vstd::prelude::*;

verus! {

/// Seconds in one civil day.
pub const SECONDS_PER_DAY: i64 = 86_400;

/// First second of the first representable day, -262143-01-01T00:00:00Z.
pub const MIN_UNIX_SECONDS: i64 = -8_334_601_228_800;

/// Last second of the last representable day, +262142-12-31T23:59:59Z.
pub const MAX_UNIX_SECONDS: i64 = 8_210_266_876_799;

/// Is `(secs, nanos)` an instant that the calendar can represent? A nanosecond
/// part of a second or more marks a leap second and is only valid in the last
/// second of a minute.
pub open spec fn representable(secs: int, nanos: int) -> bool {
    &&& MIN_UNIX_SECONDS <= secs <= MAX_UNIX_SECONDS
    &&& 0 <= nanos < 2_000_000_000
    &&& nanos >= 1_000_000_000 ==> secs % 60 == 59
}

/// Is `year` a leap year of the proleptic Gregorian calendar?
pub open spec fn is_leap_year(year: int) -> bool {
    year % 4 == 0 && (year % 100 != 0 || year % 400 == 0)
}

/// Number of days in a month, `month` counted from 1.
pub open spec fn days_in_month(year: int, month: int) -> int {
    if month == 2 {
        if is_leap_year(year) { 29 } else { 28 }
    } else if month == 4 || month == 6 || month == 9 || month == 11 {
        30
    } else {
        31
    }
}

/// Days from 0000-01-01 to the first day of `year`.
pub open spec fn days_before_year(year: int) -> int {
    let past = year - 1;
    365 * year + past / 4 - past / 100 + past / 400 + 1
}

/// Days from the first of January to the first of `month` in `year`.
pub open spec fn days_before_month(year: int, month: int) -> int
    decreases month,
{
    if month <= 1 {
        0
    } else {
        days_before_month(year, month - 1) + days_in_month(year, month - 1)
    }
}

/// Days from 1970-01-01 to the given civil date.
pub open spec fn day_number(year: int, month: int, day: int) -> int {
    days_before_year(year) + days_before_month(year, month) + (day - 1) - days_before_year(1970)
}

/// Does `(year, month, day)` name a day of the calendar?
pub open spec fn is_civil_date(year: int, month: int, day: int) -> bool {
    1 <= month <= 12 && 1 <= day <= days_in_month(year, month)
}

/// A calendar date in UTC.
#[derive(Clone, Copy, Debug, PartialEq, Eq, Structural)]
pub struct CivilDate {
    pub year: i32,
    pub month: u32,
    pub day: u32,
}

/// Is `date` the calendar date of the day `number` days after 1970-01-01?
pub open spec fn names_day(date: CivilDate, number: int) -> bool {
    &&& is_civil_date(date.year as int, date.month as int, date.day as int)
    &&& day_number(date.year as int, date.month as int, date.day as int) == number
}

/// The calendar date of the day `number` days after 1970-01-01.
pub open spec fn civil_date(number: int) -> CivilDate {
    choose|date: CivilDate| names_day(date, number)
}

/// Calls `chrono::DateTime::from_timestamp` and reads the year, month and day
/// of the result through `chrono::Datelike`. Claims that the call yields a
/// value exactly for the representable instants, and that the date read off it
/// is the proleptic Gregorian date of the UTC day that holds the instant.
#[verifier::external_body]
fn utc_date_of(secs: i64, nanos: u32) -> (date: Option<CivilDate>)
    ensures
        date is Some <==> representable(secs as int, nanos as int),
        date matches Some(found) ==> names_day(found, secs as int / 86_400),
{
    let instant = chrono::DateTime::from_timestamp(secs, nanos)?;
    Some(CivilDate { year: instant.year(), month: instant.month(), day: instant.day() })
}

/// An instant: whole seconds since 1970-01-01T00:00:00Z and the nanoseconds
/// past that second.
#[derive(Clone, Copy, Debug, PartialEq, Eq, Structural)]
pub struct Timestamp {
    secs: i64,
    nanos: u32,
}

impl Timestamp {
    #[verifier::type_invariant]
    spec fn valid(self) -> bool {
        representable(self.secs as int, self.nanos as int)
    }

    /// Whole seconds since 1970-01-01T00:00:00Z, rounded down.
    pub closed spec fn unix_seconds(self) -> int {
        self.secs as int
    }

    /// Nanoseconds past the whole second.
    pub closed spec fn subsec_nanos(self) -> int {
        self.nanos as int
    }

    /// The UTC day that holds the instant, counted from 1970-01-01.
    pub open spec fn day(self) -> int {
        self.unix_seconds() / 86_400
    }

    /// Is `self` strictly later than `other`?
    pub open spec fn later_than(self, other: Timestamp) -> bool {
        ||| self.unix_seconds() > other.unix_seconds()
        ||| self.unix_seconds() == other.unix_seconds() && self.subsec_nanos() > other.subsec_nanos()
    }

    /// The instant `secs` seconds and `nanos` nanoseconds after the epoch, if
    /// the calendar can represent it.
    pub fn new(secs: i64, nanos: u32) -> (instant: Option<Timestamp>)
        ensures
            instant is Some <==> representable(secs as int, nanos as int),
            instant matches Some(t) ==> t.unix_seconds() == secs && t.subsec_nanos() == nanos,
    {
        match utc_date_of(secs, nanos) {
            Some(_) => Some(Timestamp { secs, nanos }),
            None => None,
        }
    }

    /// Whole seconds since the epoch.
    pub fn secs(&self) -> (secs: i64)
        ensures
            secs == self.unix_seconds(),
    {
        self.secs
    }

    /// Nanoseconds past the whole second.
    pub fn nanos(&self) -> (nanos: u32)
        ensures
            nanos == self.subsec_nanos(),
    {
        self.nanos
    }

    /// Is `self` strictly later than `other`?
    pub fn is_after(&self, other: &Timestamp) -> (later: bool)
        ensures
            later == self.later_than(*other),
    {
        self.secs > other.secs || (self.secs == other.secs && self.nanos > other.nanos)
    }

    /// The UTC calendar date of the instant.
    pub fn date(&self) -> (date: CivilDate)
        ensures
            date == civil_date(self.day()),
            names_day(date, self.day()),
    {
        proof {
            use_type_invariant(self);
        }
        let date = utc_date_of(self.secs, self.nanos).unwrap();
        proof {
            civil_date_is_unique(date, civil_date(self.day()), self.day());
        }
        date
    }
}

/// Two instants with the same parts are the same instant.
pub proof fn timestamps_are_their_parts(a: Timestamp, b: Timestamp)
    requires
        a.unix_seconds() == b.unix_seconds(),
        a.subsec_nanos() == b.subsec_nanos(),
    ensures
        a == b,
{
}

/// One year is as long as its twelve months.
proof fn lemma_year_length(year: int)
    ensures
        days_before_year(year + 1) - days_before_year(year) == days_before_month(year, 12)
            + days_in_month(year, 12),
{
    reveal_with_fuel(days_before_month, 13);
}

/// Years lie one after the other, each at least a year's length apart.
proof fn lemma_years_increase(first: int, second: int)
    requires
        first <= second,
    ensures
        days_before_year(first) <= days_before_year(second),
    decreases second - first,
{
    if first < second {
        lemma_years_increase(first, second - 1);
        lemma_year_length(second - 1);
        reveal_with_fuel(days_before_month, 13);
    }
}

/// Months lie one after the other inside a year.
proof fn lemma_months_increase(year: int, first: int, second: int)
    requires
        1 <= first < second,
    ensures
        days_before_month(year, first) + days_in_month(year, first) <= days_before_month(year, second),
    decreases second - first,
{
    if first < second - 1 {
        lemma_months_increase(year, first, second - 1);
    }
}

/// An earlier calendar date is an earlier day: dates ordered by year, then
/// month, then day have increasing day numbers.
pub proof fn calendar_order_is_day_order(a: CivilDate, b: CivilDate)
    requires
        is_civil_date(a.year as int, a.month as int, a.day as int),
        is_civil_date(b.year as int, b.month as int, b.day as int),
        ({
            ||| a.year < b.year
            ||| a.year == b.year && a.month < b.month
            ||| a.year == b.year && a.month == b.month && a.day < b.day
        }),
    ensures
        day_number(a.year as int, a.month as int, a.day as int) < day_number(
            b.year as int,
            b.month as int,
            b.day as int,
        ),
{
    let (ya, ma, yb, mb) = (a.year as int, a.month as int, b.year as int, b.month as int);
    if ya < yb {
        lemma_year_length(ya);
        lemma_years_increase(ya + 1, yb);
        if ma < 12 {
            lemma_months_increase(ya, ma, 12);
        }
        if mb > 1 {
            lemma_months_increase(yb, 1, mb);
        }
    } else if ma < mb {
        lemma_months_increase(ya, ma, mb);
    }
}

/// A day has one calendar date.
pub proof fn civil_date_is_unique(a: CivilDate, b: CivilDate, number: int)
    requires
        names_day(a, number),
        names_day(b, number),
    ensures
        a == b,
{
    if a != b {
        if a.year < b.year || (a.year == b.year && (a.month < b.month || (a.month == b.month && a.day
            < b.day))) {
            calendar_order_is_day_order(a, b);
        } else {
            calendar_order_is_day_order(b, a);
        }
    }
}

/// The year that holds the day `number` days after 0000-01-01.
proof fn lemma_year_of_day(number: int) -> (year: int)
    ensures
        days_before_year(year) <= number < days_before_year(year + 1),
    decreases (if number < 0 { -number } else { number }),
{
    reveal_with_fuel(days_before_month, 13);
    if number == 0 {
        0
    } else if number > 0 {
        let before = lemma_year_of_day(number - 1);
        lemma_year_length(before + 1);
        if number < days_before_year(before + 1) { before } else { before + 1 }
    } else {
        let after = lemma_year_of_day(number + 1);
        lemma_year_length(after - 1);
        if days_before_year(after) <= number { after } else { after - 1 }
    }
}

/// Every day of the representable range has a calendar date, and it is the one
/// that `civil_date` picks.
pub proof fn every_day_has_a_date(number: int)
    requires
        MIN_UNIX_SECONDS <= number * 86_400 <= MAX_UNIX_SECONDS,
    ensures
        names_day(civil_date(number), number),
{
    let shifted = number + days_before_year(1970);
    let year = lemma_year_of_day(shifted);
    if year < -262_143 {
        lemma_years_increase(year + 1, -262_143);
    }
    if year > 262_142 {
        lemma_years_increase(262_143, year);
    }
    lemma_year_length(year);
    reveal_with_fuel(days_before_month, 13);
    let rest = shifted - days_before_year(year);
    let month: int = if rest < days_before_month(year, 2) {
        1
    } else if rest < days_before_month(year, 3) {
        2
    } else if rest < days_before_month(year, 4) {
        3
    } else if rest < days_before_month(year, 5) {
        4
    } else if rest < days_before_month(year, 6) {
        5
    } else if rest < days_before_month(year, 7) {
        6
    } else if rest < days_before_month(year, 8) {
        7
    } else if rest < days_before_month(year, 9) {
        8
    } else if rest < days_before_month(year, 10) {
        9
    } else if rest < days_before_month(year, 11) {
        10
    } else if rest < days_before_month(year, 12) {
        11
    } else {
        12
    };
    let day = rest - days_before_month(year, month) + 1;
    let date = CivilDate { year: year as i32, month: month as u32, day: day as u32 };
    assert(names_day(date, number));
}

} // verus!
