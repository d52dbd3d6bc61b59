//! The calendar: a Unix timestamp as a date and a time of day in UTC.

use vstd::prelude::*;

verus! {

/// A date and a time of day.
#[derive(Clone, Copy, Debug, PartialEq, Eq, Structural)]
pub struct Civil {
    pub year: u64,
    pub month: u64,
    pub day: u64,
    pub hour: u64,
    pub minute: u64,
    pub second: u64,
}

/// Whether a year has a leap day.
pub open spec fn is_leap(year: int) -> bool {
    year % 4 == 0 && (year % 100 != 0 || year % 400 == 0)
}

/// How many days a month has.
pub open spec fn days_in_month(year: int, month: int) -> int {
    if month == 2 {
        if is_leap(year) {
            29
        } else {
            28
        }
    } else if month == 4 || month == 6 || month == 9 || month == 11 {
        30
    } else {
        31
    }
}

/// How many days there are from the first of January 1970 to that of `year`.
pub open spec fn days_to_year(year: int) -> int
    decreases year,
{
    if year <= 1970 {
        0
    } else {
        days_to_year(year - 1) + if is_leap(year - 1) {
            366int
        } else {
            365
        }
    }
}

/// How many days of a year come before the first of `month`.
pub open spec fn days_to_month(year: int, month: int) -> int
    decreases month,
{
    if month <= 1 {
        0
    } else {
        days_to_month(year, month - 1) + days_in_month(year, month - 1)
    }
}

/// How many days after the first of January 1970 a date is.
pub open spec fn day_number(year: int, month: int, day: int) -> int {
    days_to_year(year) + days_to_month(year, month) + day - 1
}

impl Civil {
    /// Whether this is a date of the calendar and a time of the day.
    pub open spec fn is_valid(self) -> bool {
        &&& self.year >= 1970
        &&& 1 <= self.month <= 12
        &&& 1 <= self.day <= days_in_month(self.year as int, self.month as int)
        &&& self.hour < 24
        &&& self.minute < 60
        &&& self.second < 60
    }

    /// The timestamp. A day has 86400 seconds: Unix time has no leap seconds.
    pub open spec fn timestamp(self) -> int {
        86400 * day_number(self.year as int, self.month as int, self.day as int) + 3600 * self.hour
            + 60 * self.minute + self.second
    }

    /// Whether this date and time is earlier than another one, field by field.
    pub open spec fn precedes(self, other: Civil) -> bool {
        ||| self.year < other.year
        ||| self.year == other.year && self.month < other.month
        ||| self.year == other.year && self.month == other.month && self.day < other.day
        ||| self.year == other.year && self.month == other.month && self.day == other.day
            && 3600 * self.hour + 60 * self.minute + self.second < 3600 * other.hour + 60
            * other.minute + other.second
    }
}

/// How many leap days the years up to and with `year` have.
spec fn leaps(year: int) -> int {
    year / 4 - year / 100 + year / 400
}

proof fn lemma_days_to_year(year: int)
    requires
        year >= 1970,
    ensures
        days_to_year(year) == 365 * (year - 1970) + leaps(year - 1) - leaps(1969),
    decreases year,
{
    if year > 1970 {
        lemma_days_to_year(year - 1);
        let y = year - 1;
        assert(leaps(y) - leaps(y - 1) == if is_leap(y) {
            1int
        } else {
            0
        });
    }
}

/// The days before a month. From March on they follow a rule of five months each.
proof fn lemma_days_to_month(year: int, month: int)
    requires
        1 <= month <= 12,
    ensures
        month == 1 ==> days_to_month(year, month) == 0,
        month == 2 ==> days_to_month(year, month) == 31,
        month > 2 ==> days_to_month(year, month) == 59 + (153 * (month - 3) + 2) / 5 + if is_leap(
            year,
        ) {
            1int
        } else {
            0
        },
{
    reveal_with_fuel(days_to_month, 13);
}

/// Where a day of the four hundred years that start on a first of March falls: in the year
/// `yoe`, on the day `doy` of it.
proof fn lemma_year_of_era(doe: int, yoe: int)
    requires
        0 <= doe < 146_097,
        yoe == (doe - doe / 1_460 + doe / 36_524 - doe / 146_096) / 365,
    ensures
        0 <= yoe <= 399,
        0 <= doe - (365 * yoe + yoe / 4 - yoe / 100) <= 365,
        doe - (365 * yoe + yoe / 4 - yoe / 100) == 365 ==> is_leap(yoe + 1),
{
}

/// The date of the day `doy` of the year `yoe` of the era `era`, where years start on the first of
/// March.
proof fn lemma_days_of(days: int, yoe: int, era: int, doy: int)
    requires
        days >= 0,
        era >= 0,
        0 <= yoe <= 399,
        0 <= doy <= 365,
        doy == 365 ==> is_leap(yoe + 1),
        days + 719_468 == 146_097 * era + 365 * yoe + yoe / 4 - yoe / 100 + doy,
    ensures
        ({
            let mp = (5 * doy + 2) / 153;
            let day = doy - (153 * mp + 2) / 5 + 1;
            let month = if mp < 10 {
                mp + 3
            } else {
                mp - 9
            };
            let year = yoe + era * 400 + if month <= 2 {
                1int
            } else {
                0
            };
            &&& 0 <= mp <= 11
            &&& 1 <= day <= days_in_month(year, month)
            &&& year >= 1970
            &&& day_number(year, month, day) == days
        }),
{
    let mp = (5 * doy + 2) / 153;
    let day = doy - (153 * mp + 2) / 5 + 1;
    let month = if mp < 10 {
        mp + 3
    } else {
        mp - 9
    };
    let y = yoe + era * 400;
    assert(0 <= mp <= 11);
    assert(y / 4 == yoe / 4 + 100 * era);
    assert(y / 100 == yoe / 100 + 4 * era);
    assert(y / 400 == era);
    assert(leaps(y) == yoe / 4 - yoe / 100 + 97 * era);
    assert(days + 719_468 == 365 * y + leaps(y) + doy);
    assert(leaps(1969) == 477);
    lemma_leap_again(yoe + 1, era);
    if month >= 3 {
        assert(y >= 1970) by {
            if y <= 1969 {
                assert(leaps(y) <= 480 - (1969 - y) / 5);
            }
        }
        lemma_days_to_year(y);
        lemma_days_to_month(y, month);
        assert(leaps(y) - leaps(y - 1) == if is_leap(y) {
            1int
        } else {
            0
        });
    } else {
        assert(y >= 1969) by {
            if y <= 1968 {
                assert(leaps(y) <= 480 - (1969 - y) / 5);
            }
        }
        lemma_days_to_year(y + 1);
        lemma_days_to_month(y + 1, month);
    }
}

/// A year is a leap year exactly if it is one four hundred years later.
proof fn lemma_leap_again(year: int, era: int)
    ensures
        is_leap(year + 400 * era) == is_leap(year),
{
    vstd::arithmetic::div_mod::lemma_mod_multiples_vanish(100 * era, year, 4);
    vstd::arithmetic::div_mod::lemma_mod_multiples_vanish(4 * era, year, 100);
    vstd::arithmetic::div_mod::lemma_mod_multiples_vanish(era, year, 400);
    assert(4 * (100 * era) + year == year + 400 * era);
    assert(100 * (4 * era) + year == year + 400 * era);
}

/// The date and the time of day of a timestamp.
pub fn utc_parts(unix_secs: u64) -> (r: Civil)
    ensures
        r.is_valid(),
        r.timestamp() == unix_secs,
{
    let days: u64 = unix_secs / 86_400;
    let rem: u64 = unix_secs % 86_400;
    let z: u64 = days + 719_468;
    let era: u64 = z / 146_097;
    let doe: u64 = z % 146_097;
    let yoe: u64 = (doe - doe / 1_460 + doe / 36_524 - doe / 146_096) / 365;
    proof {
        lemma_year_of_era(doe as int, yoe as int);
    }
    let doy: u64 = doe - (365 * yoe + yoe / 4 - yoe / 100);
    let mp: u64 = (5 * doy + 2) / 153;
    let day: u64 = doy - (153 * mp + 2) / 5 + 1;
    let month: u64 = if mp < 10 {
        mp + 3
    } else {
        mp - 9
    };
    let year: u64 = yoe + era * 400 + if month <= 2 {
        1
    } else {
        0
    };
    proof {
        lemma_days_of(days as int, yoe as int, era as int, doy as int);
    }
    Civil { year, month, day, hour: rem / 3_600, minute: (rem / 60) % 60, second: rem % 60 }
}

proof fn lemma_years_add_up(a: int, b: int)
    requires
        1970 <= a <= b,
    ensures
        days_to_year(a) <= days_to_year(b),
    decreases b - a,
{
    if a < b {
        lemma_years_add_up(a, b - 1);
    }
}

proof fn lemma_months_add_up(year: int, a: int, b: int)
    requires
        1 <= a <= b <= 13,
    ensures
        days_to_month(year, a) <= days_to_month(year, b),
    decreases b - a,
{
    if a < b {
        lemma_months_add_up(year, a, b - 1);
    }
}

/// A date that is earlier field by field has the smaller day number.
proof fn lemma_days_in_order(a: Civil, b: Civil)
    requires
        a.is_valid(),
        b.is_valid(),
        a.year < b.year || (a.year == b.year && a.month < b.month),
    ensures
        day_number(a.year as int, a.month as int, a.day as int) < day_number(
            b.year as int,
            b.month as int,
            b.day as int,
        ),
{
    let (y, m) = (a.year as int, a.month as int);
    assert(days_to_month(y, m + 1) == days_to_month(y, m) + days_in_month(y, m));
    if a.year < b.year {
        lemma_months_add_up(y, m + 1, 13);
        reveal_with_fuel(days_to_month, 14);
        assert(days_to_month(y, 13) == if is_leap(y) {
            366int
        } else {
            365
        });
        assert(days_to_year(y + 1) == days_to_year(y) + days_to_month(y, 13));
        lemma_years_add_up(y + 1, b.year as int);
        lemma_months_add_up(b.year as int, 1, b.month as int);
    } else {
        lemma_months_add_up(y, m + 1, b.month as int);
    }
}

/// A later timestamp is a later date or time, field by field, and the other way round.
pub proof fn dates_are_in_the_order_of_their_timestamps(a: Civil, b: Civil)
    requires
        a.is_valid(),
        b.is_valid(),
    ensures
        a.timestamp() < b.timestamp() <==> a.precedes(b),
        a.timestamp() == b.timestamp() ==> a == b,
{
    if a.year < b.year || (a.year == b.year && a.month < b.month) {
        lemma_days_in_order(a, b);
    } else if b.year < a.year || (b.year == a.year && b.month < a.month) {
        lemma_days_in_order(b, a);
    }
}

/// Every timestamp is some date and time.
pub proof fn every_timestamp_has_a_date(secs: u64) -> (c: Civil)
    ensures
        c.is_valid(),
        c.timestamp() == secs,
{
    let (days, rem) = (secs as int / 86_400, secs as int % 86_400);
    let z = days + 719_468;
    let era = z / 146_097;
    let doe = z % 146_097;
    let yoe = (doe - doe / 1_460 + doe / 36_524 - doe / 146_096) / 365;
    lemma_year_of_era(doe, yoe);
    let doy = doe - (365 * yoe + yoe / 4 - yoe / 100);
    lemma_days_of(days, yoe, era, doy);
    let mp = (5 * doy + 2) / 153;
    let month = if mp < 10 {
        mp + 3
    } else {
        mp - 9
    };
    Civil {
        year: (yoe + era * 400 + if month <= 2 {
            1int
        } else {
            0
        }) as u64,
        month: month as u64,
        day: (doy - (153 * mp + 2) / 5 + 1) as u64,
        hour: (rem / 3_600) as u64,
        minute: ((rem / 60) % 60) as u64,
        second: (rem % 60) as u64,
    }
}

/// The last second of the year 9999.
pub const LAST_OF_9999: u64 = 253_402_300_799;

/// Up to that second a year has four digits.
pub proof fn years_have_four_digits(c: Civil)
    requires
        c.is_valid(),
        c.timestamp() <= LAST_OF_9999,
    ensures
        c.year <= 9999,
{
    let last = Civil { year: 9999, month: 12, day: 31, hour: 23, minute: 59, second: 59 };
    lemma_days_to_year(9999);
    lemma_days_to_month(9999, 12);
    assert(last.timestamp() == LAST_OF_9999);
    dates_are_in_the_order_of_their_timestamps(last, c);
}

/// The calendar repeats after four hundred years, which are 146097 days; the first second of 1970
/// is the first of all; and a second later is a second later.
pub proof fn the_calendar_repeats_after_four_hundred_years(year: int, c: Civil)
    requires
        year >= 1970,
    ensures
        days_to_year(year + 400) == days_to_year(year) + 146_097,
        is_leap(year + 400) == is_leap(year),
        (Civil { year: 1970, month: 1, day: 1, hour: 0, minute: 0, second: 0 }).timestamp() == 0,
        c.second < 59 ==> (Civil { second: (c.second + 1) as u64, ..c }).timestamp()
            == c.timestamp() + 1,
        c.second == 59 && c.minute < 59 ==> (Civil {
            second: 0,
            minute: (c.minute + 1) as u64,
            ..c
        }).timestamp() == c.timestamp() + 1,
        c.second == 59 && c.minute == 59 && c.hour < 23 ==> (Civil {
            second: 0,
            minute: 0,
            hour: (c.hour + 1) as u64,
            ..c
        }).timestamp() == c.timestamp() + 1,
        c.second == 59 && c.minute == 59 && c.hour == 23 && c.day < u64::MAX ==> (Civil {
            second: 0,
            minute: 0,
            hour: 0,
            day: (c.day + 1) as u64,
            ..c
        }).timestamp() == c.timestamp() + 1,
{
    lemma_days_to_year(year);
    lemma_days_to_year(year + 400);
}

/// The months have their days: the last day of each is followed by the first of the next, and the
/// last of December by the new year. February has twenty-nine days in every fourth year, but not in
/// a hundredth that is no four-hundredth.
pub proof fn the_months_have_their_days(year: int, month: int)
    requires
        year >= 1970,
        1 <= month <= 12,
    ensures
        month < 12 ==> day_number(year, month + 1, 1) == day_number(
            year,
            month,
            days_in_month(year, month),
        ) + 1,
        month == 12 ==> day_number(year + 1, 1, 1) == day_number(
            year,
            12,
            days_in_month(year, 12),
        ) + 1,
        month == 4 || month == 6 || month == 9 || month == 11 ==> days_in_month(year, month)
            == 30,
        month == 1 || month == 3 || month == 5 || month == 7 || month == 8 || month == 10 || month
            == 12 ==> days_in_month(year, month) == 31,
        year % 4 != 0 ==> days_in_month(year, 2) == 28,
        year % 4 == 0 && year % 100 != 0 ==> days_in_month(year, 2) == 29,
        year % 100 == 0 && year % 400 != 0 ==> days_in_month(year, 2) == 28,
        year % 400 == 0 ==> days_in_month(year, 2) == 29,
{
    reveal_with_fuel(days_to_month, 13);
}

} // verus!
