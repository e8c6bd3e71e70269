//! Calendar dates of the proleptic Gregorian calendar, and the arithmetic on
//! them that recurrence rules need: day counts and month steps.

use vstd::prelude::*;

verus! {

/// The first year a [`Date`] can hold.
pub const MIN_YEAR: u32 = 1;

/// The last year a [`Date`] can hold.
pub const MAX_YEAR: u32 = 9999;

/// Whether `year` has a 29th of February.
pub open spec fn leap_year(year: int) -> bool {
    year % 4 == 0 && (year % 100 != 0 || year % 400 == 0)
}

/// The number of days of `month` in `year`.
pub open spec fn days_in_month(year: int, month: int) -> int {
    if month == 2 {
        if leap_year(year) {
            29
        } else {
            28
        }
    } else if month == 4 || month == 6 || month == 9 || month == 11 {
        30
    } else {
        31
    }
}

/// The number of days of `year`.
pub open spec fn days_in_year(year: int) -> int {
    if leap_year(year) {
        366
    } else {
        365
    }
}

/// The number of days of `year` that lie before the first of `month`.
pub open spec fn days_before_month(year: int, month: int) -> int
    decreases month,
{
    if month <= 1 {
        0
    } else {
        days_before_month(year, month - 1) + days_in_month(year, month - 1)
    }
}

/// The number of days in the years from year 1 up to, and without, `year`.
pub open spec fn days_before_year(year: int) -> int
    decreases year,
{
    if year <= 1 {
        0
    } else {
        days_before_year(year - 1) + days_in_year(year - 1)
    }
}

/// Whether year, month and day name a day of the calendar that a [`Date`]
/// can hold.
pub open spec fn valid_ymd(year: int, month: int, day: int) -> bool {
    &&& MIN_YEAR <= year <= MAX_YEAR
    &&& 1 <= month <= 12
    &&& 1 <= day <= days_in_month(year, month)
}

/// A day of the calendar, between 0001-01-01 and 9999-12-31.
#[derive(Clone, Copy, Debug, PartialEq, Eq, Structural, Hash)]
pub struct Date {
    pub(crate) year: u32,
    pub(crate) month: u32,
    pub(crate) day: u32,
}

impl Date {
    /// What every date in executable code satisfies.
    #[verifier::type_invariant]
    pub open(crate) spec fn valid(self) -> bool {
        valid_ymd(self.year as int, self.month as int, self.day as int)
    }

    /// The date's year.
    pub open(crate) spec fn spec_year(&self) -> u32 {
        self.year
    }

    /// The date's month, 1 for January.
    pub open(crate) spec fn spec_month(&self) -> u32 {
        self.month
    }

    /// The date's day of the month.
    pub open(crate) spec fn spec_day(&self) -> u32 {
        self.day
    }

    /// The position of the date in the calendar: 1 for 0001-01-01, and one
    /// more for each day after it.
    pub open spec fn day_number(self) -> int {
        days_before_year(self.spec_year() as int) + days_before_month(
            self.spec_year() as int,
            self.spec_month() as int,
        ) + self.spec_day()
    }

    /// The position of the date's month in the calendar, one more for each
    /// month.
    pub open spec fn month_index(self) -> int {
        self.spec_year() * 12 + self.spec_month() - 1
    }

    /// Whether this date comes before `other` in the calendar: in an
    /// earlier year, or in the same year in an earlier month, or in the
    /// same month on an earlier day.
    pub open spec fn precedes(self, other: Date) -> bool {
        ||| self.spec_year() < other.spec_year()
        ||| self.spec_year() == other.spec_year() && self.spec_month() < other.spec_month()
        ||| self.spec_year() == other.spec_year() && self.spec_month() == other.spec_month()
            && self.spec_day() < other.spec_day()
    }

    /// Whether `next` is the day after this date: the next day of the
    /// month, or the first of the next month after a month's last day, or
    /// the first of January after the 31st of December.
    pub open spec fn is_day_before(self, next: Date) -> bool {
        if self.spec_day() < days_in_month(self.spec_year() as int, self.spec_month() as int) {
            &&& next.spec_year() == self.spec_year()
            &&& next.spec_month() == self.spec_month()
            &&& next.spec_day() == self.spec_day() + 1
        } else if self.spec_month() < 12 {
            &&& next.spec_year() == self.spec_year()
            &&& next.spec_month() == self.spec_month() + 1
            &&& next.spec_day() == 1
        } else {
            &&& next.spec_year() == self.spec_year() + 1
            &&& next.spec_month() == 1
            &&& next.spec_day() == 1
        }
    }

    /// The date `months` calendar months after this one. The day of the
    /// month is kept where the target month has it, and is the target
    /// month's last day where it has not: one month after the 31st of
    /// January is the last day of February. `None` where `months` is
    /// negative or the result lies after year 9999.
    pub open(crate) spec fn months_after(self, months: int) -> Option<Date> {
        let index = self.month_index() + months;
        let year = index / 12;
        let month = index % 12 + 1;
        let last = days_in_month(year, month);
        let day = if self.spec_day() <= last {
            self.spec_day() as int
        } else {
            last
        };
        if months >= 0 && year <= MAX_YEAR {
            Some(Date { year: year as u32, month: month as u32, day: day as u32 })
        } else {
            None
        }
    }

    /// The date of the given year, month and day, if the calendar has it
    /// between 0001-01-01 and 9999-12-31.
    pub fn new(year: u32, month: u32, day: u32) -> (res: Option<Date>)
        ensures
            res is Some <==> valid_ymd(year as int, month as int, day as int),
            res matches Some(d) ==> d.spec_year() == year && d.spec_month() == month
                && d.spec_day() == day,
    {
        if year < MIN_YEAR || year > MAX_YEAR || month < 1 || month > 12 || day < 1 {
            return None;
        }
        if day > month_length(year, month) {
            return None;
        }
        Some(Date { year, month, day })
    }

    /// The date's year.
    #[verifier::when_used_as_spec(spec_year)]
    pub fn year(&self) -> (res: u32)
        ensures
            res == self.spec_year(),
            MIN_YEAR <= res <= MAX_YEAR,
    {
        proof {
            use_type_invariant(self);
        }
        self.year
    }

    /// The date's month, 1 for January.
    #[verifier::when_used_as_spec(spec_month)]
    pub fn month(&self) -> (res: u32)
        ensures
            res == self.spec_month(),
            1 <= res <= 12,
    {
        proof {
            use_type_invariant(self);
        }
        self.month
    }

    /// The date's day of the month.
    #[verifier::when_used_as_spec(spec_day)]
    pub fn day(&self) -> (res: u32)
        ensures
            res == self.spec_day(),
            1 <= res <= days_in_month(self.spec_year() as int, self.spec_month() as int),
    {
        proof {
            use_type_invariant(self);
        }
        self.day
    }

    /// The date's position in the calendar, computed.
    pub fn ordinal(&self) -> (res: u32)
        ensures
            res == self.day_number(),
            1 <= res <= 3652059,
    {
        proof {
            use_type_invariant(self);
            lemma_days_before_year_closed(self.year as int);
            lemma_day_of_year_bounds(self.year as int, self.month as int, self.day as int);
        }
        let y: u32 = self.year - 1;
        365 * y + y / 4 - y / 100 + y / 400 + days_to_month(self.year, self.month) + self.day
    }

    /// Whether this date is `other` or comes before it.
    pub fn le(&self, other: &Date) -> (res: bool)
        ensures
            res == (self.day_number() <= other.day_number()),
    {
        self.ordinal() <= other.ordinal()
    }

    /// Whether this date comes before `other`.
    pub fn lt(&self, other: &Date) -> (res: bool)
        ensures
            res == (self.day_number() < other.day_number()),
    {
        self.ordinal() < other.ordinal()
    }

    /// The number of days from `earlier` to this date, negative where this
    /// date comes first.
    pub fn days_since(&self, earlier: &Date) -> (res: i64)
        ensures
            res == self.day_number() - earlier.day_number(),
    {
        let a: u32 = self.ordinal();
        let b: u32 = earlier.ordinal();
        a as i64 - b as i64
    }

    /// The number of calendar months from the month of `earlier` to the
    /// month of this date, negative where this date's month comes first.
    pub fn months_since(&self, earlier: &Date) -> (res: i64)
        ensures
            res == self.month_index() - earlier.month_index(),
    {
        proof {
            use_type_invariant(self);
            use_type_invariant(earlier);
        }
        let a: u32 = self.year * 12 + self.month - 1;
        let b: u32 = earlier.year * 12 + earlier.month - 1;
        a as i64 - b as i64
    }

    /// The date `months` calendar months after this one, see
    /// [`Date::months_after`].
    pub fn checked_add_months(&self, months: u32) -> (res: Option<Date>)
        ensures
            res == self.months_after(months as int),
    {
        proof {
            use_type_invariant(self);
        }
        let index: u64 = (self.year as u64) * 12 + (self.month as u64) - 1 + months as u64;
        let year: u64 = index / 12;
        let month: u64 = index % 12 + 1;
        if year > MAX_YEAR as u64 {
            return None;
        }
        let last: u32 = month_length(year as u32, month as u32);
        let day: u32 = if self.day <= last {
            self.day
        } else {
            last
        };
        Some(Date { year: year as u32, month: month as u32, day })
    }
}

/// Whether `year` has a 29th of February, computed.
pub fn is_leap_year(year: u32) -> (res: bool)
    ensures
        res == leap_year(year as int),
{
    year % 4 == 0 && (year % 100 != 0 || year % 400 == 0)
}

/// The number of days of `month` in `year`, computed.
pub fn month_length(year: u32, month: u32) -> (res: u32)
    ensures
        res == days_in_month(year as int, month as int),
        28 <= res <= 31,
{
    if month == 2 {
        if is_leap_year(year) {
            29
        } else {
            28
        }
    } else if month == 4 || month == 6 || month == 9 || month == 11 {
        30
    } else {
        31
    }
}

/// The number of days of `year` before the first of `month`, computed.
fn days_to_month(year: u32, month: u32) -> (res: u32)
    requires
        1 <= month <= 12,
    ensures
        res == days_before_month(year as int, month as int),
        res <= 335,
{
    proof {
        reveal_with_fuel(days_before_month, 13);
    }
    let leap: u32 = if month > 2 && is_leap_year(year) {
        1
    } else {
        0
    };
    let common: u32 = if month == 1 {
        0
    } else if month == 2 {
        31
    } else if month == 3 {
        59
    } else if month == 4 {
        90
    } else if month == 5 {
        120
    } else if month == 6 {
        151
    } else if month == 7 {
        181
    } else if month == 8 {
        212
    } else if month == 9 {
        243
    } else if month == 10 {
        273
    } else if month == 11 {
        304
    } else {
        334
    };
    common + leap
}

/// The days before a year, counted year by year, are what the usual formula
/// gives: 365 for each year and one more for each leap year.
pub proof fn lemma_days_before_year_closed(year: int)
    requires
        year >= 1,
    ensures
        days_before_year(year) == 365 * (year - 1) + (year - 1) / 4 - (year - 1) / 100 + (year
            - 1) / 400,
    decreases year,
{
    if year > 1 {
        lemma_days_before_year_closed(year - 1);
    }
}

/// A day of a year lies within that year: its position in the year is at
/// least 1 and at most the number of days the year has.
pub proof fn lemma_day_of_year_bounds(year: int, month: int, day: int)
    requires
        1 <= month <= 12,
        1 <= day <= days_in_month(year, month),
    ensures
        1 <= days_before_month(year, month) + day <= days_in_year(year),
{
    reveal_with_fuel(days_before_month, 13);
}

/// A later year begins after the whole of an earlier one.
pub proof fn lemma_years_in_order(earlier: int, later: int)
    requires
        1 <= earlier < later,
    ensures
        days_before_year(earlier) + days_in_year(earlier) <= days_before_year(later),
    decreases later - earlier,
{
    if earlier + 1 < later {
        lemma_years_in_order(earlier, later - 1);
    }
}

/// A later month of a year begins after the whole of an earlier one.
pub proof fn lemma_months_in_order(year: int, earlier: int, later: int)
    requires
        1 <= earlier < later <= 12,
    ensures
        days_before_month(year, earlier) + days_in_month(year, earlier) <= days_before_month(
            year,
            later,
        ),
    decreases later - earlier,
{
    if earlier + 1 < later {
        lemma_months_in_order(year, earlier, later - 1);
    }
}

/// The day numbers order the dates as the calendar does, and no two dates
/// share one.
pub proof fn lemma_day_numbers_in_order(a: Date, b: Date)
    requires
        a.valid(),
        b.valid(),
    ensures
        a.precedes(b) <==> a.day_number() < b.day_number(),
        a == b <==> a.day_number() == b.day_number(),
{
    lemma_precedes_in_days(a, b);
    lemma_precedes_in_days(b, a);
}

proof fn lemma_precedes_in_days(a: Date, b: Date)
    requires
        a.valid(),
        b.valid(),
    ensures
        a.precedes(b) ==> a.day_number() < b.day_number(),
{
    lemma_day_of_year_bounds(a.spec_year() as int, a.spec_month() as int, a.spec_day() as int);
    lemma_day_of_year_bounds(b.spec_year() as int, b.spec_month() as int, b.spec_day() as int);
    if a.spec_year() < b.spec_year() {
        lemma_years_in_order(a.spec_year() as int, b.spec_year() as int);
    } else if a.spec_year() == b.spec_year() && a.spec_month() < b.spec_month() {
        lemma_months_in_order(a.spec_year() as int, a.spec_month() as int, b.spec_month() as int);
    }
}

/// The day numbers count the days: the day after a date has the next
/// number.
pub proof fn lemma_day_numbers_count_days(date: Date, next: Date)
    requires
        date.valid(),
        date.is_day_before(next),
    ensures
        next.day_number() == date.day_number() + 1,
{
    reveal_with_fuel(days_before_month, 13);
}

/// Adding no months leaves a date as it is.
pub proof fn lemma_months_after_zero(date: Date)
    requires
        date.valid(),
    ensures
        date.months_after(0) == Some(date),
{
}

} // verus!
