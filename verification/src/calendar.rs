//! Dates of the proleptic Gregorian calendar and timestamps in RFC 3339 form.
use crate::text;
use vstd::prelude::*;
use vstd::string::StringExecFns;

verus! {

/// Years divisible by four are leap years, except those divisible by a hundred
/// and not by four hundred.
pub open spec fn is_leap(year: int) -> bool {
    year % 4 == 0 && (year % 100 != 0 || year % 400 == 0)
}

/// The number of days of a month.
pub open spec fn days_in_month(year: int, month: int) -> int {
    if month == 2 {
        if is_leap(year) {
            29
        } else {
            28
        }
    } else if month == 4 || month == 6 || month == 9 || month == 11 {
        30
    } else {
        31
    }
}

/// The days of the year before the first of a month.
pub open spec fn days_before_month(year: int, month: int) -> int
    decreases month,
{
    if month <= 1 {
        0
    } else {
        days_before_month(year, month - 1) + days_in_month(year, month - 1)
    }
}

/// The leap years from year 1 to `year`, counted backwards below that.
pub open spec fn leap_years_through(year: int) -> int {
    year / 4 - year / 100 + year / 400
}

/// The days from 1970-01-01 to the first day of a year.
pub open spec fn days_before_year(year: int) -> int {
    365 * (year - 1970) + leap_years_through(year - 1) - leap_years_through(1969)
}

/// The days from 1970-01-01 to a date.
pub open spec fn day_number(year: int, month: int, day: int) -> int {
    days_before_year(year) + days_before_month(year, month) + day - 1
}

/// The month and the day exist in the year.
pub open spec fn is_date(year: int, month: int, day: int) -> bool {
    1 <= month <= 12 && 1 <= day <= days_in_month(year, month)
}

/// The date lies `z` days after 1970-01-01.
pub open spec fn names_day(date: (int, int, int), z: int) -> bool {
    is_date(date.0, date.1, date.2) && day_number(date.0, date.1, date.2) == z
}

/// The date that lies `z` days after 1970-01-01.
pub open spec fn date_of(z: int) -> (int, int, int) {
    choose|date: (int, int, int)| names_day(date, z)
}

proof fn month_offsets(year: int)
    ensures
        days_before_month(year, 1) == 0,
        days_before_month(year, 2) == 31,
        days_before_month(year, 3) == 59 + (if is_leap(year) { 1int } else { 0int }),
        days_before_month(year, 4) == days_before_month(year, 3) + 31,
        days_before_month(year, 5) == days_before_month(year, 3) + 61,
        days_before_month(year, 6) == days_before_month(year, 3) + 92,
        days_before_month(year, 7) == days_before_month(year, 3) + 122,
        days_before_month(year, 8) == days_before_month(year, 3) + 153,
        days_before_month(year, 9) == days_before_month(year, 3) + 184,
        days_before_month(year, 10) == days_before_month(year, 3) + 214,
        days_before_month(year, 11) == days_before_month(year, 3) + 245,
        days_before_month(year, 12) == days_before_month(year, 3) + 275,
{
    reveal_with_fuel(days_before_month, 13);
}

proof fn leap_years_step(year: int)
    ensures
        leap_years_through(year) == leap_years_through(year - 1) + (if is_leap(year) {
            1int
        } else {
            0int
        }),
{
}

/// The year of the era from the day of the era.
#[verifier::rlimit(40)]
proof fn year_of_era(doe: int)
    requires
        0 <= doe < 146_097,
    ensures
        ({
            let yoe = (doe - doe / 1460 + doe / 36_524 - doe / 146_096) / 365;
            let doy = doe - (365 * yoe + yoe / 4 - yoe / 100);
            &&& 0 <= yoe < 400
            &&& 0 <= doy <= 365
            &&& doy == 365 ==> is_leap(yoe + 1)
        }),
{
}

/// The quotient rounded towards negative infinity.
fn div_floor(a: i64, b: i64) -> (r: i64)
    requires
        b > 1,
    ensures
        r == a as int / b as int,
{
    if a >= 0 {
        a / b
    } else {
        let back: i64 = -(a + 1);
        let q: i64 = back / b;
        proof {
            let rest = back as int % b as int;
            assert(back == b * q + rest) by {
                vstd::arithmetic::div_mod::lemma_fundamental_div_mod(back as int, b as int);
            }
            assert(a == b * (-q - 1) + (b - 1 - rest)) by (nonlinear_arith)
                requires
                    a == -back - 1,
                    back == b * q + rest,
            ;
            vstd::arithmetic::div_mod::lemma_fundamental_div_mod_converse(
                a as int,
                b as int,
                -q - 1,
                b - 1 - rest,
            );
        }
        -q - 1
    }
}

/// The remainder that goes with the quotient of `div_floor`.
fn rem_floor(a: i64, b: i64) -> (r: i64)
    requires
        b > 1,
    ensures
        r == a as int % b as int,
{
    if a >= 0 {
        a % b
    } else {
        let back: i64 = -(a + 1);
        let rest: i64 = back % b;
        proof {
            let q = back as int / b as int;
            vstd::arithmetic::div_mod::lemma_fundamental_div_mod(back as int, b as int);
            assert(a == b * (-q - 1) + (b - 1 - rest)) by (nonlinear_arith)
                requires
                    a == -back - 1,
                    back == b * q + rest,
            ;
            vstd::arithmetic::div_mod::lemma_fundamental_div_mod_converse(
                a as int,
                b as int,
                -q - 1,
                b - 1 - rest,
            );
        }
        b - 1 - rest
    }
}

/// The month, counted from March, and the day of it from the day of a year that
/// begins in March.
proof fn month_of_year(doy: int)
    requires
        0 <= doy <= 365,
    ensures
        ({
            let mp = (5 * doy + 2) / 153;
            let first = (153 * mp + 2) / 5;
            &&& 0 <= mp <= 11
            &&& first <= doy
            &&& mp == 0 ==> first == 0 && doy < 31
            &&& mp == 1 ==> first == 31 && doy < 61
            &&& mp == 2 ==> first == 61 && doy < 92
            &&& mp == 3 ==> first == 92 && doy < 122
            &&& mp == 4 ==> first == 122 && doy < 153
            &&& mp == 5 ==> first == 153 && doy < 184
            &&& mp == 6 ==> first == 184 && doy < 214
            &&& mp == 7 ==> first == 214 && doy < 245
            &&& mp == 8 ==> first == 245 && doy < 275
            &&& mp == 9 ==> first == 275 && doy < 306
            &&& mp == 10 ==> first == 306 && doy < 337
            &&& mp == 11 ==> first == 337
        }),
{
}

/// The first of March and the following first of January, counted from the era.
#[verifier::rlimit(40)]
proof fn march_first(era: int, yoe: int)
    requires
        0 <= yoe < 400,
    ensures
        ({
            let y = yoe + era * 400;
            &&& days_before_year(y) + days_before_month(y, 3) == era * 146_097 + 365 * yoe + yoe / 4
                - yoe / 100 - 719_468
            &&& days_before_year(y + 1) == days_before_year(y) + days_before_month(y, 3) + 306
            &&& is_leap(y + 1) == is_leap(yoe + 1)
        }),
{
    let y = yoe + era * 400;
    month_offsets(y);
    leap_years_step(y);
    assert(y / 4 == 100 * era + yoe / 4);
    assert(y / 100 == 4 * era + yoe / 100);
    assert(y / 400 == era);
    assert((y + 1) % 4 == (yoe + 1) % 4);
    assert((y + 1) % 100 == (yoe + 1) % 100);
    assert((y + 1) % 400 == (yoe + 1) % 400);
}

/// The date from the era, the year of the era and the day of that year.
#[verifier::rlimit(40)]
proof fn date_in_era(era: int, yoe: int, doy: int, z: int)
    requires
        0 <= yoe < 400,
        0 <= doy <= 365,
        doy == 365 ==> is_leap(yoe + 1),
        z + 719_468 == era * 146_097 + 365 * yoe + yoe / 4 - yoe / 100 + doy,
    ensures
        ({
            let mp = (5 * doy + 2) / 153;
            let d = doy - (153 * mp + 2) / 5 + 1;
            let m = if mp < 10 {
                mp + 3
            } else {
                mp - 9
            };
            let y = yoe + era * 400;
            let year = if m <= 2 {
                y + 1
            } else {
                y
            };
            &&& 0 <= mp <= 11
            &&& 1 <= d <= 31
            &&& names_day((year, m, d), z)
        }),
{
    let y = yoe + era * 400;
    let mp = (5 * doy + 2) / 153;
    let first = (153 * mp + 2) / 5;
    let d = doy - first + 1;
    let m = if mp < 10 {
        mp + 3
    } else {
        mp - 9
    };
    let year = if m <= 2 {
        y + 1
    } else {
        y
    };
    march_first(era, yoe);
    month_of_year(doy);
    let march = days_before_year(y) + days_before_month(y, 3);
    assert(march == z - doy);
    assert(days_before_year(year) + days_before_month(year, m) == march + first) by {
        month_offsets(year);
    }
    assert(1 <= d <= days_in_month(year, m));
}

/// A year lies no further from 1970 than its days do.
proof fn year_bounds(date: (int, int, int), z: int)
    requires
        names_day(date, z),
    ensures
        z < 0 ==> z <= date.0,
        z >= 0 ==> 0 <= date.0 <= z + 1970,
{
    month_offsets(date.0);
}

/// The date that lies `z` days after 1970-01-01, after Howard Hinnant's
/// `civil_from_days`: years are counted from March, so that the leap day is the
/// last of its year, in eras of 400 years.
pub fn civil_from_days(z: i64) -> (r: (i64, u32, u32))
    requires
        z <= i64::MAX - 719_468,
    ensures
        names_day((r.0 as int, r.1 as int, r.2 as int), z as int),
        (r.0 as int, r.1 as int, r.2 as int) == date_of(z as int),
{
    let shifted: i64 = z + 719_468;
    let era: i64 = div_floor(shifted, 146_097);
    let doe: i64 = rem_floor(shifted, 146_097);
    let yoe: i64 = (doe - doe / 1460 + doe / 36_524 - doe / 146_096) / 365;
    proof {
        year_of_era(doe as int);
    }
    let y: i64 = yoe + era * 400;
    let doy: i64 = doe - (365 * yoe + yoe / 4 - yoe / 100);
    proof {
        date_in_era(era as int, yoe as int, doy as int, z as int);
    }
    let mp: i64 = (5 * doy + 2) / 153;
    let d: u32 = (doy - (153 * mp + 2) / 5 + 1) as u32;
    let m: u32 = if mp < 10 {
        (mp + 3) as u32
    } else {
        (mp - 9) as u32
    };
    let year: i64 = if m <= 2 {
        y + 1
    } else {
        y
    };
    proof {
        one_date_for_each_day((year as int, m as int, d as int), date_of(z as int), z as int);
    }
    (year, m, d)
}

/// Every day has a date.
pub proof fn every_day_has_a_date(z: int)
    ensures
        names_day(date_of(z), z),
{
    let era = (z + 719_468) / 146_097;
    let doe = (z + 719_468) % 146_097;
    let yoe = (doe - doe / 1460 + doe / 36_524 - doe / 146_096) / 365;
    let doy = doe - (365 * yoe + yoe / 4 - yoe / 100);
    year_of_era(doe);
    date_in_era(era, yoe, doy, z);
}

/// No two dates name the same day.
pub proof fn one_date_for_each_day(a: (int, int, int), b: (int, int, int), z: int)
    requires
        names_day(a, z),
        names_day(b, z),
    ensures
        a == b,
{
    if a.0 != b.0 || a.1 != b.1 || a.2 != b.2 {
        if earlier(a, b) {
            earlier_dates_have_smaller_numbers(a, b);
        } else {
            earlier_dates_have_smaller_numbers(b, a);
        }
    }
}

/// Year, month and day in that order decide which date comes first.
pub open spec fn earlier(a: (int, int, int), b: (int, int, int)) -> bool {
    a.0 < b.0 || (a.0 == b.0 && (a.1 < b.1 || (a.1 == b.1 && a.2 < b.2)))
}

/// The number of days grows with the date.
#[verifier::rlimit(40)]
pub proof fn earlier_dates_have_smaller_numbers(a: (int, int, int), b: (int, int, int))
    requires
        is_date(a.0, a.1, a.2),
        is_date(b.0, b.1, b.2),
        earlier(a, b),
    ensures
        day_number(a.0, a.1, a.2) < day_number(b.0, b.1, b.2),
{
    month_offsets(a.0);
    month_offsets(b.0);
    leap_years_step(a.0);
    if a.0 < b.0 {
        assert(days_before_year(a.0 + 1) <= days_before_year(b.0));
        assert(day_number(a.0, a.1, a.2) < days_before_year(a.0 + 1));
    }
}

/// A year in at least four places, with the sign in front where it is negative.
pub open spec fn year_text(year: int) -> Seq<char> {
    if year < 0 {
        "-"@ + text::zero_padded((-year) as nat, 3)
    } else {
        text::zero_padded(year as nat, 4)
    }
}

/// A time in UTC with millisecond precision: `2026-08-26T12:00:00.000Z`.
pub open spec fn iso_text(seconds: int, millis: nat) -> Seq<char> {
    let date = date_of(seconds / 86_400);
    let of_day = seconds % 86_400;
    year_text(date.0) + "-"@ + text::zero_padded(date.1 as nat, 2) + "-"@ + text::zero_padded(
        date.2 as nat,
        2,
    ) + "T"@ + text::zero_padded((of_day / 3600) as nat, 2) + ":"@ + text::zero_padded(
        (of_day % 3600 / 60) as nat,
        2,
    ) + ":"@ + text::zero_padded((of_day % 60) as nat, 2) + "."@ + text::zero_padded(millis, 3)
        + "Z"@
}

/// Renders a year in at least four places.
fn year_string(year: i64) -> (r: String)
    requires
        year > i64::MIN,
    ensures
        r@ == year_text(year as int),
{
    if year < 0 {
        let digits = text::zero_padded_text((-year) as u128, 3);
        text::concat2("-", digits.as_str())
    } else {
        text::zero_padded_text(year as u128, 4)
    }
}

/// Renders a time given in milliseconds since 1970-01-01, in UTC. The seconds
/// are taken as a 64-bit number.
pub fn timestamp_iso(now_ms: u128) -> (r: String)
    ensures
        r@ == iso_text((now_ms / 1000) as i64 as int, (now_ms % 1000) as nat),
{
    let total_secs: i64 = (now_ms / 1000) as i64;
    let millis: u128 = now_ms % 1000;
    let days: i64 = div_floor(total_secs, 86_400);
    let secs_of_day: i64 = rem_floor(total_secs, 86_400);
    let (year, month, day) = civil_from_days(days);
    proof {
        year_bounds((year as int, month as int, day as int), days as int);
    }
    let mut r = year_string(year);
    r.append("-");
    r.append(text::zero_padded_text(month as u128, 2).as_str());
    r.append("-");
    r.append(text::zero_padded_text(day as u128, 2).as_str());
    r.append("T");
    r.append(text::zero_padded_text((secs_of_day / 3600) as u128, 2).as_str());
    r.append(":");
    r.append(text::zero_padded_text((secs_of_day % 3600 / 60) as u128, 2).as_str());
    r.append(":");
    r.append(text::zero_padded_text((secs_of_day % 60) as u128, 2).as_str());
    r.append(".");
    r.append(text::zero_padded_text(millis, 3).as_str());
    r.append("Z");
    r
}

/// A number that fits in the width is written in exactly that width.
proof fn padded_width(n: nat, width: nat)
    requires
        width == 2 && n < 100 || width == 3 && n < 1000 || width == 4 && n < 10_000,
    ensures
        text::zero_padded(n, width).len() == width,
{
    reveal_with_fuel(text::decimal, 5);
}

/// The parts of a time of day.
proof fn parts_of_day(seconds: int)
    ensures
        0 <= seconds % 86_400 / 3600 < 24,
        0 <= seconds % 86_400 % 3600 / 60 < 60,
        0 <= seconds % 86_400 % 60 < 60,
{
}

/// A time of the first ten thousand years is always written in 24 characters,
/// with its marks at the same places.
pub proof fn timestamps_have_a_fixed_width(seconds: int, millis: nat)
    requires
        0 <= date_of(seconds / 86_400).0 <= 9999,
        millis < 1000,
    ensures
        iso_text(seconds, millis).len() == 24,
        iso_text(seconds, millis)[4] == '-',
        iso_text(seconds, millis)[7] == '-',
        iso_text(seconds, millis)[10] == 'T',
        iso_text(seconds, millis)[13] == ':',
        iso_text(seconds, millis)[16] == ':',
        iso_text(seconds, millis)[19] == '.',
        iso_text(seconds, millis)[23] == 'Z',
{
    let date = date_of(seconds / 86_400);
    let of_day = seconds % 86_400;
    assert(is_date(date.0, date.1, date.2)) by {
        every_day_has_a_date(seconds / 86_400);
    }
    parts_of_day(seconds);
    padded_width(date.0 as nat, 4);
    padded_width(date.1 as nat, 2);
    padded_width(date.2 as nat, 2);
    padded_width((of_day / 3600) as nat, 2);
    padded_width((of_day % 3600 / 60) as nat, 2);
    padded_width((of_day % 60) as nat, 2);
    padded_width(millis, 3);
    fixed_places(
        year_text(date.0),
        text::zero_padded(date.1 as nat, 2),
        text::zero_padded(date.2 as nat, 2),
        text::zero_padded((of_day / 3600) as nat, 2),
        text::zero_padded((of_day % 3600 / 60) as nat, 2),
        text::zero_padded((of_day % 60) as nat, 2),
        text::zero_padded(millis, 3),
    );
}

/// Where the marks stand between parts of known widths.
proof fn fixed_places(
    year: Seq<char>,
    month: Seq<char>,
    day: Seq<char>,
    hour: Seq<char>,
    minute: Seq<char>,
    second: Seq<char>,
    millis: Seq<char>,
)
    requires
        year.len() == 4,
        month.len() == 2,
        day.len() == 2,
        hour.len() == 2,
        minute.len() == 2,
        second.len() == 2,
        millis.len() == 3,
    ensures
        ({
            let all = year + "-"@ + month + "-"@ + day + "T"@ + hour + ":"@ + minute + ":"@
                + second + "."@ + millis + "Z"@;
            &&& all.len() == 24
            &&& all[4] == '-'
            &&& all[7] == '-'
            &&& all[10] == 'T'
            &&& all[13] == ':'
            &&& all[16] == ':'
            &&& all[19] == '.'
            &&& all[23] == 'Z'
        }),
{
    reveal_strlit("-");
    reveal_strlit("T");
    reveal_strlit(":");
    reveal_strlit(".");
    reveal_strlit("Z");
    let date = year + "-"@ + month + "-"@ + day;
    assert(date.len() == 10 && date[4] == '-' && date[7] == '-');
    let clock = date + "T"@ + hour + ":"@ + minute + ":"@ + second;
    assert(clock.len() == 19 && clock[4] == '-' && clock[7] == '-');
    assert(clock[10] == 'T' && clock[13] == ':' && clock[16] == ':');
}

/// The first day is the first of January 1970, and every day is followed by the next
/// one of its month, the last of a month by the first of the next, and the last of a
/// year by the first of January. April, June, September and November have 30 days,
/// February has 29 in a leap year and else 28, and the others have 31; a leap year is
/// divisible by four, and by four hundred where it is by a hundred.
#[verifier::rlimit(40)]
pub proof fn days_follow_each_other(z: int)
    ensures
        date_of(0) == (1970int, 1int, 1int),
        ({
            let (year, month, day) = date_of(z);
            let leap = year % 400 == 0 || (year % 4 == 0 && year % 100 != 0);
            let length = if month == 2 {
                if leap {
                    29int
                } else {
                    28int
                }
            } else if month == 4 || month == 6 || month == 9 || month == 11 {
                30int
            } else {
                31int
            };
            &&& 1 <= month <= 12
            &&& 1 <= day <= length
            &&& date_of(z + 1) == if day < length {
                (year, month, day + 1)
            } else if month < 12 {
                (year, month + 1, 1int)
            } else {
                (year + 1, 1int, 1int)
            }
        }),
{
    let date = date_of(z);
    let (year, month, day) = date;
    every_day_has_a_date(z);
    every_day_has_a_date(z + 1);
    every_day_has_a_date(0);
    assert(names_day((1970int, 1int, 1int), 0)) by {
        month_offsets(1970);
    }
    one_date_for_each_day(date_of(0), (1970int, 1int, 1int), 0);
    let next = if day < days_in_month(year, month) {
        (year, month, day + 1)
    } else if month < 12 {
        (year, month + 1, 1int)
    } else {
        (year + 1, 1int, 1int)
    };
    assert(year % 400 == 0 ==> year % 4 == 0);
    assert(names_day(next, z + 1)) by {
        month_offsets(year);
        month_offsets(year + 1);
        leap_years_step(year);
    }
    one_date_for_each_day(date_of(z + 1), next, z + 1);
}

/// A time of the first ten thousand years can be read back from its text: the date is
/// that of its day, the clock that of the seconds of the day, and the rest the
/// milliseconds.
pub proof fn timestamps_read_back(seconds: int, millis: nat)
    requires
        0 <= date_of(seconds / 86_400).0 <= 9999,
        millis < 1000,
    ensures
        ({
            let date = date_of(seconds / 86_400);
            let all = iso_text(seconds, millis);
            &&& all.len() == 24
            &&& text::number_of(all.subrange(0, 4)) == date.0
            &&& text::number_of(all.subrange(5, 7)) == date.1
            &&& text::number_of(all.subrange(8, 10)) == date.2
            &&& text::number_of(all.subrange(11, 13)) == seconds % 86_400 / 3600
            &&& text::number_of(all.subrange(14, 16)) == seconds % 3600 / 60
            &&& text::number_of(all.subrange(17, 19)) == seconds % 60
            &&& text::number_of(all.subrange(20, 23)) == millis
        }),
{
    let date = date_of(seconds / 86_400);
    assert(is_date(date.0, date.1, date.2)) by {
        every_day_has_a_date(seconds / 86_400);
    }
    parts_of_timestamps(seconds, millis);
    parts_of_day(seconds);
    clock_of_seconds(seconds);
    padded_number(date.0 as nat, 4);
    padded_number(date.1 as nat, 2);
    padded_number(date.2 as nat, 2);
    padded_number((seconds % 86_400 / 3600) as nat, 2);
    padded_number((seconds % 86_400 % 3600 / 60) as nat, 2);
    padded_number((seconds % 86_400 % 60) as nat, 2);
    padded_number(millis, 3);
}

/// The hour is left out of the minutes, and both are left out of the seconds.
proof fn clock_of_seconds(seconds: int)
    ensures
        seconds % 86_400 % 3600 == seconds % 3600,
        seconds % 86_400 % 60 == seconds % 60,
{
    let days = seconds / 86_400;
    let of_day = seconds % 86_400;
    assert(seconds == 3600 * (24 * days) + of_day);
    assert(seconds == 60 * (1440 * days) + of_day);
    vstd::arithmetic::div_mod::lemma_mod_multiples_vanish(24 * days, of_day, 3600);
    vstd::arithmetic::div_mod::lemma_mod_multiples_vanish(1440 * days, of_day, 60);
}

/// Where the parts of a timestamp stand.
proof fn parts_of_timestamps(seconds: int, millis: nat)
    requires
        0 <= date_of(seconds / 86_400).0 <= 9999,
        millis < 1000,
    ensures
        ({
            let date = date_of(seconds / 86_400);
            let of_day = seconds % 86_400;
            let all = iso_text(seconds, millis);
            &&& all.len() == 24
            &&& all.subrange(0, 4) == text::zero_padded(date.0 as nat, 4)
            &&& all.subrange(5, 7) == text::zero_padded(date.1 as nat, 2)
            &&& all.subrange(8, 10) == text::zero_padded(date.2 as nat, 2)
            &&& all.subrange(11, 13) == text::zero_padded((of_day / 3600) as nat, 2)
            &&& all.subrange(14, 16) == text::zero_padded((of_day % 3600 / 60) as nat, 2)
            &&& all.subrange(17, 19) == text::zero_padded((of_day % 60) as nat, 2)
            &&& all.subrange(20, 23) == text::zero_padded(millis, 3)
        }),
{
    let date = date_of(seconds / 86_400);
    let of_day = seconds % 86_400;
    assert(is_date(date.0, date.1, date.2)) by {
        every_day_has_a_date(seconds / 86_400);
    }
    timestamps_have_a_fixed_width(seconds, millis);
    parts_of_day(seconds);
    padded_width(date.0 as nat, 4);
    padded_width(date.1 as nat, 2);
    padded_width(date.2 as nat, 2);
    padded_width((of_day / 3600) as nat, 2);
    padded_width((of_day % 3600 / 60) as nat, 2);
    padded_width((of_day % 60) as nat, 2);
    padded_width(millis, 3);
    parts_stand_between_the_marks(
        year_text(date.0),
        text::zero_padded(date.1 as nat, 2),
        text::zero_padded(date.2 as nat, 2),
        text::zero_padded((of_day / 3600) as nat, 2),
        text::zero_padded((of_day % 3600 / 60) as nat, 2),
        text::zero_padded((of_day % 60) as nat, 2),
        text::zero_padded(millis, 3),
    );
}

/// A number that fits in the width is written in exactly that width and reads back.
proof fn padded_number(n: nat, width: nat)
    requires
        width == 2 && n < 100 || width == 3 && n < 1000 || width == 4 && n < 10_000,
    ensures
        text::zero_padded(n, width).len() == width,
        text::number_of(text::zero_padded(n, width)) == n,
{
    padded_width(n, width);
    text::padding_reads_back(n, width);
}

/// Where the parts stand.
proof fn parts_stand_between_the_marks(
    year: Seq<char>,
    month: Seq<char>,
    day: Seq<char>,
    hour: Seq<char>,
    minute: Seq<char>,
    second: Seq<char>,
    millis: Seq<char>,
)
    requires
        year.len() == 4,
        month.len() == 2,
        day.len() == 2,
        hour.len() == 2,
        minute.len() == 2,
        second.len() == 2,
        millis.len() == 3,
    ensures
        ({
            let all = year + "-"@ + month + "-"@ + day + "T"@ + hour + ":"@ + minute + ":"@
                + second + "."@ + millis + "Z"@;
            &&& all.subrange(0, 4) == year
            &&& all.subrange(5, 7) == month
            &&& all.subrange(8, 10) == day
            &&& all.subrange(11, 13) == hour
            &&& all.subrange(14, 16) == minute
            &&& all.subrange(17, 19) == second
            &&& all.subrange(20, 23) == millis
        }),
{
    reveal_strlit("-");
    reveal_strlit("T");
    reveal_strlit(":");
    reveal_strlit(".");
    reveal_strlit("Z");
    let date = year + "-"@ + month + "-"@ + day;
    assert(date.subrange(0, 4) =~= year && date.subrange(5, 7) =~= month && date.subrange(8, 10)
        =~= day);
    let clock = date + "T"@ + hour + ":"@ + minute + ":"@ + second;
    assert(clock.len() == 19);
    assert(clock.subrange(0, 10) =~= date);
    assert(clock.subrange(11, 13) =~= hour);
    assert(clock.subrange(14, 16) =~= minute);
    assert(clock.subrange(17, 19) =~= second);
    let all = clock + "."@ + millis + "Z"@;
    assert(all.subrange(0, 4) =~= date.subrange(0, 4));
    assert(all.subrange(5, 7) =~= date.subrange(5, 7));
    assert(all.subrange(8, 10) =~= date.subrange(8, 10));
    assert(all.subrange(11, 13) =~= clock.subrange(11, 13));
    assert(all.subrange(14, 16) =~= clock.subrange(14, 16));
    assert(all.subrange(17, 19) =~= clock.subrange(17, 19));
    assert(all.subrange(20, 23) =~= millis);
}

/// A year is written in four places, one beyond 9999 in as many as it takes, and one
/// before year 0 with a minus sign as the first of them.
pub proof fn years_take_four_places(year: int)
    ensures
        year >= 0 ==> year_text(year) == text::zero_padded(year as nat, 4),
        year < 0 ==> year_text(year) == seq!['-'] + text::zero_padded((-year) as nat, 3),
{
    reveal_strlit("-");
    assert("-"@ =~= seq!['-']);
}

} // verus!
