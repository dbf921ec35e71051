//! Unix time as a date of the proleptic Gregorian calendar.
use crate::number;
use crate::number::to_padded_decimal;
use crate::text::push_text;
use vstd::prelude::*;

verus! {

/// Whether `year` has 366 days.
pub open spec fn leap_year(year: int) -> bool {
    year % 4 == 0 && (year % 100 != 0 || year % 400 == 0)
}

/// The number of days of a year.
pub open spec fn year_length(year: int) -> int {
    if leap_year(year) {
        366
    } else {
        365
    }
}

/// The number of days of a month, counted from 1.
pub open spec fn month_length(year: int, month: int) -> int {
    if month == 2 {
        if leap_year(year) {
            29
        } else {
            28
        }
    } else if month == 4 || month == 6 || month == 9 || month == 11 {
        30
    } else {
        31
    }
}

/// The days from the start of 1970 to the start of `year`; negative before it.
pub open spec fn days_to_year(year: int) -> int
    decreases
            if year < 1970 {
                1970 - year
            } else {
                year - 1970
            },
{
    if year == 1970 {
        0
    } else if year > 1970 {
        days_to_year(year - 1) + year_length(year - 1)
    } else {
        days_to_year(year + 1) - year_length(year)
    }
}

/// The days of `year` before the start of `month`.
pub open spec fn days_to_month(year: int, month: int) -> int
    decreases month,
{
    if month <= 1 {
        0
    } else {
        days_to_month(year, month - 1) + month_length(year, month - 1)
    }
}

/// A date; months and days are counted from 1.
pub struct Date {
    pub year: int,
    pub month: int,
    pub day: int,
}

impl Date {
    /// Whether the calendar has this date.
    pub open spec fn valid(self) -> bool {
        1 <= self.month <= 12 && 1 <= self.day <= month_length(self.year, self.month)
    }

    /// The days from 1970-01-01 to this date.
    pub open spec fn number(self) -> int {
        days_to_year(self.year) + days_to_month(self.year, self.month) + self.day - 1
    }

    /// Whether this date comes before `other`.
    pub open spec fn before(self, other: Date) -> bool {
        ||| self.year < other.year
        ||| self.year == other.year && self.month < other.month
        ||| self.year == other.year && self.month == other.month && self.day < other.day
    }
}

/// The date that is `days` days after 1970-01-01.
pub open spec fn date_of(days: int) -> Date {
    choose|date: Date| date.valid() && #[trigger] date.number() == days
}

/// Unix time as `YYYY-MM-DD HH:MM UTC`.
pub open spec fn utc_text(secs: int) -> Seq<char> {
    let date = date_of(secs / 86400);
    let rem = secs % 86400;
    number::padded_decimal(date.year, 4) + "-"@ + number::padded_decimal(date.month, 2) + "-"@
        + number::padded_decimal(date.day, 2) + " "@ + number::padded_decimal(rem / 3600, 2) + ":"@
        + number::padded_decimal((rem % 3600) / 60, 2) + " UTC"@
}

/// The leap days between the start of year 1 and the start of `year`.
spec fn leap_days(year: int) -> int {
    (year - 1) / 4 - (year - 1) / 100 + (year - 1) / 400
}

proof fn lemma_leap_days_step(year: int)
    ensures
        leap_days(year + 1) == leap_days(year) + (if leap_year(year) {
            1int
        } else {
            0int
        }),
{
}

proof fn lemma_days_to_year(year: int)
    ensures
        days_to_year(year) == 365 * (year - 1970) + leap_days(year) - 477,
    decreases
            if year < 1970 {
                1970 - year
            } else {
                year - 1970
            },
{
    if year > 1970 {
        lemma_days_to_year(year - 1);
        lemma_leap_days_step(year - 1);
    } else if year < 1970 {
        lemma_days_to_year(year + 1);
        lemma_leap_days_step(year);
    }
}

/// The next year starts right after the last day of a year.
proof fn lemma_next_year(year: int)
    ensures
        days_to_year(year + 1) == days_to_year(year) + year_length(year),
{
    lemma_days_to_year(year);
    lemma_days_to_year(year + 1);
    lemma_leap_days_step(year);
}

proof fn lemma_days_to_month(year: int)
    ensures
        days_to_month(year, 1) == 0,
        days_to_month(year, 2) == 31,
        ({
            let feb = month_length(year, 2);
            &&& days_to_month(year, 3) == 31 + feb
            &&& days_to_month(year, 4) == 62 + feb
            &&& days_to_month(year, 5) == 92 + feb
            &&& days_to_month(year, 6) == 123 + feb
            &&& days_to_month(year, 7) == 153 + feb
            &&& days_to_month(year, 8) == 184 + feb
            &&& days_to_month(year, 9) == 215 + feb
            &&& days_to_month(year, 10) == 245 + feb
            &&& days_to_month(year, 11) == 276 + feb
            &&& days_to_month(year, 12) == 306 + feb
        }),
{
    reveal_with_fuel(days_to_month, 13);
}

/// The days from the start of March of year 0 to the start of March of `year`,
/// within a cycle of 400 years.
spec fn march_days(year: int) -> int {
    365 * year + year / 4 - year / 100
}

/// The year within a cycle of 400 that starts in March, from the day within it.
spec fn cycle_year(doe: int) -> int {
    (doe - doe / 1460 + doe / 36524 - doe / 146096) / 365
}

proof fn lemma_cycle_year(doe: int)
    requires
        0 <= doe < 146097,
    ensures
        0 <= cycle_year(doe) <= 399,
        march_days(cycle_year(doe)) <= doe,
        doe - march_days(cycle_year(doe)) <= 364 + (if leap_year(cycle_year(doe) + 1) {
            1int
        } else {
            0int
        }),
{
}

/// The start of a month within a year that starts in March, months counted
/// from 0.
spec fn march_month_start(mp: int) -> int {
    (153 * mp + 2) / 5
}

/// The day `doy` of the year that starts in March of `year` is the date that
/// the month arithmetic gives.
proof fn lemma_march_year_date(year: int, doy: int)
    requires
        0 <= doy <= 364 + (if leap_year(year + 1) {
            1int
        } else {
            0int
        }),
    ensures
        ({
            let mp = (5 * doy + 2) / 153;
            let day = doy - march_month_start(mp) + 1;
            let date = if mp < 10 {
                Date { year, month: mp + 3, day }
            } else {
                Date { year: year + 1, month: mp - 9, day }
            };
            &&& 0 <= mp <= 11
            &&& date.valid()
            &&& date.number() == days_to_year(year) + days_to_month(year, 3) + doy
        }),
{
    let mp = (5 * doy + 2) / 153;
    lemma_days_to_month(year);
    lemma_days_to_month(year + 1);
    lemma_next_year(year);
    assert(0 <= mp <= 11);
    if mp == 0 {
    } else if mp == 1 {
    } else if mp == 2 {
    } else if mp == 3 {
    } else if mp == 4 {
    } else if mp == 5 {
    } else if mp == 6 {
    } else if mp == 7 {
    } else if mp == 8 {
    } else if mp == 9 {
    } else if mp == 10 {
    } else {
        assert(mp == 11);
    }
}

/// The start of March, counted from 1970-01-01, over cycles of 400 years.
proof fn lemma_march_start(era: int, yoe: int)
    requires
        0 <= yoe <= 399,
    ensures
        ({
            let year = yoe + era * 400;
            &&& days_to_year(year) + days_to_month(year, 3) == era * 146097 + march_days(yoe)
                - 719468
            &&& leap_year(year + 1) == leap_year(yoe + 1)
        }),
{
    let year = yoe + era * 400;
    lemma_days_to_year(year);
    lemma_days_to_month(year);
    lemma_leap_days_step(year);
    assert(leap_days(year + 1) == year / 4 - year / 100 + year / 400);
    assert(year / 400 == era);
    assert(year / 100 == era * 4 + yoe / 100);
    assert(year / 4 == era * 100 + yoe / 4);
}

/// A day of a valid date lies inside its year.
proof fn lemma_day_in_year(date: Date)
    requires
        date.valid(),
    ensures
        0 <= days_to_month(date.year, date.month) + date.day - 1 < year_length(date.year),
{
    lemma_days_to_month(date.year);
    let m = date.month;
    assert(m == 1 || m == 2 || m == 3 || m == 4 || m == 5 || m == 6 || m == 7 || m == 8 || m == 9
        || m == 10 || m == 11 || m == 12);
}

proof fn lemma_months_in_order(year: int, a: int, b: int)
    requires
        1 <= a < b <= 12,
    ensures
        days_to_month(year, a) + month_length(year, a) <= days_to_month(year, b),
    decreases b - a,
{
    if a + 1 < b {
        lemma_months_in_order(year, a, b - 1);
    }
}

proof fn lemma_years_in_order(a: int, b: int)
    requires
        a < b,
    ensures
        days_to_year(a) + year_length(a) <= days_to_year(b),
    decreases b - a,
{
    lemma_next_year(b - 1);
    if a + 1 < b {
        lemma_years_in_order(a, b - 1);
    }
}

/// Days are numbered in the order of their dates: a later date has the larger
/// number.
pub proof fn law_dates_in_order(a: Date, b: Date)
    requires
        a.valid(),
        b.valid(),
        a.before(b),
    ensures
        a.number() < b.number(),
{
    lemma_day_in_year(a);
    lemma_day_in_year(b);
    if a.year < b.year {
        lemma_years_in_order(a.year, b.year);
    } else if a.month < b.month {
        lemma_months_in_order(a.year, a.month, b.month);
    }
}

/// No two dates have the same number.
pub proof fn law_one_date_per_day(a: Date, b: Date)
    requires
        a.valid(),
        b.valid(),
        a.number() == b.number(),
    ensures
        a == b,
{
    if a.before(b) {
        law_dates_in_order(a, b);
    } else if b.before(a) {
        law_dates_in_order(b, a);
    }
}

/// Every day has a date: `date_of` gives a date of the calendar, and the one
/// with that number.
pub proof fn law_every_day_has_a_date(days: int)
    ensures
        date_of(days).valid(),
        date_of(days).number() == days,
{
    let z = days + 719468;
    let era = z / 146097;
    let doe = z % 146097;
    let yoe = cycle_year(doe);
    lemma_cycle_year(doe);
    let doy = doe - march_days(yoe);
    lemma_march_start(era, yoe);
    lemma_march_year_date(yoe + era * 400, doy);
    let year = yoe + era * 400;
    let mp = (5 * doy + 2) / 153;
    let day = doy - march_month_start(mp) + 1;
    let date = if mp < 10 {
        Date { year, month: mp + 3, day }
    } else {
        Date { year: year + 1, month: mp - 9, day }
    };
    assert(date.valid() && date.number() == days);
}

/// The quotient of `a` by `b`, rounded down.
fn floor_div(a: i64, b: i64) -> (r: i64)
    requires
        b > 0,
    ensures
        r == a as int / b as int,
{
    if a >= 0 {
        ((a as u64) / (b as u64)) as i64
    } else {
        let n: u64 = (-(a + 1)) as u64;
        let q: u64 = n / (b as u64);
        proof {
            let x = -(a as int) - 1;
            let y = b as int;
            let m = x / y;
            vstd::arithmetic::div_mod::lemma_fundamental_div_mod(x, y);
            vstd::arithmetic::div_mod::lemma_mod_bound(x, y);
            let rem = y - 1 - x % y;
            assert(a as int == (-m - 1) * y + rem) by (nonlinear_arith)
                requires
                    a as int == -x - 1,
                    x == y * m + x % y,
                    rem == y - 1 - x % y,
            ;
            vstd::arithmetic::div_mod::lemma_fundamental_div_mod_converse(
                a as int,
                y,
                -m - 1,
                rem,
            );
            vstd::arithmetic::div_mod::lemma_div_is_ordered_by_denominator(x, 1, y);
        }
        -(q as i64) - 1
    }
}

/// Year, month and day of the day that is `days` days after 1970-01-01.
fn civil(days: i64) -> (r: (i64, i64, i64))
    requires
        -200_000_000_000_000 <= days <= 200_000_000_000_000,
    ensures
        ({
            let date = Date { year: r.0 as int, month: r.1 as int, day: r.2 as int };
            date.valid() && date.number() == days
        }),
{
    let z: i64 = days + 719_468;
    let era: i64 = floor_div(z, 146_097);
    let doe: i64 = z - era * 146_097;
    proof {
        assert(doe == z as int % 146_097);
        lemma_cycle_year(doe as int);
    }
    let yoe: i64 = ((doe as u64 - doe as u64 / 1460 + doe as u64 / 36_524 - doe as u64 / 146_096)
        / 365) as i64;
    assert(yoe == cycle_year(doe as int));
    let y: i64 = yoe + era * 400;
    let doy: i64 = doe - (365 * yoe + (yoe as u64 / 4) as i64 - (yoe as u64 / 100) as i64);
    proof {
        lemma_march_start(era as int, yoe as int);
        lemma_march_year_date(y as int, doy as int);
    }
    let mp: i64 = ((5 * doy as u64 + 2) / 153) as i64;
    let d: i64 = doy - ((153 * mp as u64 + 2) / 5) as i64 + 1;
    let m: i64 = if mp < 10 {
        mp + 3
    } else {
        mp - 9
    };
    let y: i64 = if m <= 2 {
        y + 1
    } else {
        y
    };
    (y, m, d)
}

/// `secs` (unix seconds) as `YYYY-MM-DD HH:MM UTC`. The calendar arithmetic is
/// Howard Hinnant's civil-from-days.
pub fn iso_utc(secs: i64) -> (r: String)
    ensures
        r@ == utc_text(secs as int),
{
    let days: i64 = floor_div(secs, 86_400);
    let rem: i64 = (secs as i128 - days as i128 * 86_400) as i64;
    let (y, m, d) = civil(days);
    let hour: i64 = (rem as u64 / 3600) as i64;
    let minute: i64 = ((rem as u64 % 3600) / 60) as i64;
    let mut out = to_padded_decimal(y, 4);
    push_text(&mut out, "-");
    push_text(&mut out, to_padded_decimal(m, 2).as_str());
    push_text(&mut out, "-");
    push_text(&mut out, to_padded_decimal(d, 2).as_str());
    push_text(&mut out, " ");
    push_text(&mut out, to_padded_decimal(hour, 2).as_str());
    push_text(&mut out, ":");
    push_text(&mut out, to_padded_decimal(minute, 2).as_str());
    push_text(&mut out, " UTC");
    proof {
        let date = Date { year: y as int, month: m as int, day: d as int };
        law_every_day_has_a_date(days as int);
        law_one_date_per_day(date, date_of(days as int));
        assert(rem == secs as int % 86400);
    }
    out
}

/// The text of a time tells the date and the minute in which it lies.
pub proof fn law_text_tells_the_minute(secs: int, date: Date, hour: int, minute: int)
    requires
        date.valid(),
        0 <= hour < 24,
        0 <= minute < 60,
        0 <= secs - (date.number() * 86400 + hour * 3600 + minute * 60) < 60,
    ensures
        utc_text(secs) == number::padded_decimal(date.year, 4) + "-"@ + number::padded_decimal(
            date.month,
            2,
        ) + "-"@ + number::padded_decimal(date.day, 2) + " "@ + number::padded_decimal(hour, 2)
            + ":"@ + number::padded_decimal(minute, 2) + " UTC"@,
{
    let days = secs / 86400;
    let rem = secs % 86400;
    assert(days == date.number() && rem / 3600 == hour && (rem % 3600) / 60 == minute);
    law_every_day_has_a_date(days);
    law_one_date_per_day(date, date_of(days));
}

} // verus!
