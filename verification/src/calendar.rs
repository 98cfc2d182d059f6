//! The proleptic Gregorian calendar: from seconds since the Unix epoch to a
//! civil date and time of day.

use crate::text;
use vstd::prelude::*;

verus! {

/// Seconds in a day.
pub const DAY_SECONDS: u64 = 86_400;

// ---------------------------------------------------------------------------
// Model
// ---------------------------------------------------------------------------

/// Whether `year` is a leap year.
pub open spec fn is_leap(year: int) -> bool {
    year % 4 == 0 && (year % 100 != 0 || year % 400 == 0)
}

/// The number of days of a month.
pub open spec fn month_days(year: int, month: int) -> int {
    if month == 2 {
        if is_leap(year) {
            29
        } else {
            28
        }
    } else if month == 4 || month == 6 || month == 9 || month == 11 {
        30
    } else {
        31
    }
}

/// Whether there is such a date.
pub open spec fn is_date(year: int, month: int, day: int) -> bool {
    1 <= month <= 12 && 1 <= day <= month_days(year, month)
}

/// The days of `year` before the first of `month`.
pub open spec fn days_before_month(year: int, month: int) -> int
    decreases month,
{
    if month <= 1 {
        0
    } else {
        days_before_month(year, month - 1) + month_days(year, month - 1)
    }
}

/// The days between the first of January of the year 1 and that of `year`:
/// 365 for each year, and one more for each leap year among them.
pub open spec fn days_before_year(year: int) -> int {
    let full = year - 1;
    365 * full + full / 4 - full / 100 + full / 400
}

/// The days between 1970-01-01 and a date.
pub open spec fn day_number(year: int, month: int, day: int) -> int {
    days_before_year(year) - days_before_year(1970) + days_before_month(year, month) + day - 1
}

/// The date that lies `days` days after 1970-01-01.
pub open spec fn date_of(days: int) -> (int, int, int) {
    choose|year: int, month: int, day: int|
        is_date(year, month, day) && #[trigger] day_number(year, month, day) == days
}

/// The UTC date at `seconds` since the Unix epoch, as year, month and day
/// joined by `sep`.
pub open spec fn date_text(seconds: nat, sep: char) -> Seq<char> {
    let (year, month, day) = date_of(seconds as int / 86_400);
    text::padded_text(year as nat, 4) + seq![sep] + text::padded_text(month as nat, 2) + seq![sep]
        + text::padded_text(day as nat, 2)
}

/// The UTC time of day at `seconds` since the Unix epoch, as `HH:MM:SS`.
pub open spec fn clock_text(seconds: nat) -> Seq<char> {
    let rest = seconds % 86_400;
    text::padded_text(rest / 3600, 2) + seq![':'] + text::padded_text(rest % 3600 / 60, 2) + seq![
        ':',
    ] + text::padded_text(rest % 60, 2)
}

// ---------------------------------------------------------------------------
// Facts about the model
// ---------------------------------------------------------------------------

/// The days before each month, tabulated.
proof fn lemma_month_table(year: int)
    ensures
        days_before_month(year, 1) == 0,
        days_before_month(year, 2) == 31,
        ({
            let leap: int = if is_leap(year) {
                1
            } else {
                0
            };
            &&& days_before_month(year, 3) == 59 + leap
            &&& days_before_month(year, 4) == 90 + leap
            &&& days_before_month(year, 5) == 120 + leap
            &&& days_before_month(year, 6) == 151 + leap
            &&& days_before_month(year, 7) == 181 + leap
            &&& days_before_month(year, 8) == 212 + leap
            &&& days_before_month(year, 9) == 243 + leap
            &&& days_before_month(year, 10) == 273 + leap
            &&& days_before_month(year, 11) == 304 + leap
            &&& days_before_month(year, 12) == 334 + leap
        }),
{
    reveal_with_fuel(days_before_month, 13);
}

/// How many multiples of 4, 100 and 400 a year adds.
#[verifier::spinoff_prover]
proof fn lemma_multiples(year: int)
    ensures
        year / 4 == (year - 1) / 4 + (if year % 4 == 0 {
            1int
        } else {
            0
        }),
        year / 100 == (year - 1) / 100 + (if year % 100 == 0 {
            1int
        } else {
            0
        }),
        year / 400 == (year - 1) / 400 + (if year % 400 == 0 {
            1int
        } else {
            0
        }),
        year % 400 == 0 ==> year % 100 == 0,
        year % 100 == 0 ==> year % 4 == 0,
{
}

/// A year is 365 days long, and a leap year 366.
#[verifier::spinoff_prover]
proof fn lemma_year_length(year: int)
    ensures
        days_before_year(year + 1) == days_before_year(year) + 365 + (if is_leap(year) {
            1int
        } else {
            0
        }),
{
    lemma_multiples(year);
    assert(days_before_year(year) == 365 * (year - 1) + (year - 1) / 4 - (year - 1) / 100 + (year
        - 1) / 400);
    assert(days_before_year(year + 1) == 365 * year + year / 4 - year / 100 + year / 400);
}

/// Later years begin later.
#[verifier::spinoff_prover]
proof fn lemma_years_ordered(a: int, b: int)
    requires
        a <= b,
    ensures
        days_before_year(a) <= days_before_year(b),
{
}

/// Different dates have different day numbers.
pub proof fn law_day_number_is_injective(y1: int, m1: int, d1: int, y2: int, m2: int, d2: int)
    requires
        is_date(y1, m1, d1),
        is_date(y2, m2, d2),
        day_number(y1, m1, d1) == day_number(y2, m2, d2),
    ensures
        y1 == y2,
        m1 == m2,
        d1 == d2,
{
    lemma_month_table(y1);
    lemma_month_table(y2);
    lemma_year_length(y1);
    lemma_year_length(y2);
    if y1 < y2 {
        lemma_years_ordered(y1 + 1, y2);
    } else if y2 < y1 {
        lemma_years_ordered(y2 + 1, y1);
    }
}

/// A date with the right day number is the one that `date_of` picks.
pub proof fn lemma_date_of(days: int, year: int, month: int, day: int)
    requires
        is_date(year, month, day),
        day_number(year, month, day) == days,
    ensures
        date_of(days) == (year, month, day),
{
    let (y, m, d) = date_of(days);
    law_day_number_is_injective(y, m, d, year, month, day);
}

/// Within a cycle of 400 years that begin in March, the quotient that the
/// algorithm takes is the year, and what is left is a day of that year.
#[verifier::spinoff_prover]
proof fn lemma_year_of_cycle(doe: int, yoe: int)
    requires
        0 <= doe <= 146_096,
        yoe == (doe - doe / 1460 + doe / 36_524 - doe / 146_096) / 365,
    ensures
        0 <= yoe <= 399,
        0 <= doe - (365 * yoe + yoe / 4 - yoe / 100) <= 365,
        doe - (365 * yoe + yoe / 4 - yoe / 100) == 365 ==> is_leap(yoe + 1),
{
}

/// The days from the first of March of the year 0 to that of `year`.
spec fn march_days(year: int) -> int {
    365 * year + year / 4 - year / 100 + year / 400
}

/// March years and January years, compared.
proof fn lemma_march_year(year: int)
    ensures
        march_days(year) == days_before_year(year) + 365 + (if is_leap(year) {
            1int
        } else {
            0
        }),
        march_days(year) == days_before_year(year + 1),
{
    lemma_year_length(year);
}

/// The cycle of 400 years in which a day lies.
proof fn lemma_era(z: int, era: int)
    requires
        era == if z >= 0 {
            z / 146_097
        } else {
            -((146_096 - z) / 146_097)
        },
    ensures
        0 <= z - era * 146_097 <= 146_096,
{
}

/// The first of March of a year, counted through its cycle.
#[verifier::spinoff_prover]
proof fn lemma_cycle_start(era: int, yoe: int)
    requires
        0 <= yoe <= 399,
    ensures
        march_days(yoe + era * 400) == era * 146_097 + 365 * yoe + yoe / 4 - yoe / 100,
        is_leap(yoe + era * 400 + 1) == is_leap(yoe + 1),
{
    let year = yoe + era * 400;
    lemma_shifted(yoe, era * 100, 4);
    lemma_shifted(yoe, era * 4, 100);
    lemma_shifted(yoe, era, 400);
    lemma_shifted(yoe + 1, era * 100, 4);
    lemma_shifted(yoe + 1, era * 4, 100);
    lemma_shifted(yoe + 1, era, 400);
}

/// Adding a multiple of the divisor adds to the quotient and keeps the rest.
proof fn lemma_shifted(n: int, k: int, d: int)
    requires
        d == 4 || d == 100 || d == 400,
    ensures
        (n + k * d) / d == n / d + k,
        (n + k * d) % d == n % d,
{
    vstd::arithmetic::div_mod::lemma_fundamental_div_mod(n, d);
    assert(n + k * d == (n / d + k) * d + n % d) by (nonlinear_arith)
        requires
            n == d * (n / d) + n % d,
    ;
    vstd::arithmetic::div_mod::lemma_fundamental_div_mod_converse(
        n + k * d,
        d,
        n / d + k,
        n % d,
    );
}

/// The month of a year that begins in March, and the day within it.
proof fn lemma_month_of_year(doy: int, mp: int)
    requires
        0 <= doy <= 365,
        mp == (5 * doy + 2) / 153,
    ensures
        0 <= mp <= 11,
        0 <= doy - (153 * mp + 2) / 5,
        mp < 11 ==> doy < (153 * (mp + 1) + 2) / 5,
        (153 * mp + 2) / 5 <= 337,
{
}

/// The date that the day `doy` of the March year `year` is.
#[verifier::spinoff_prover]
proof fn lemma_civil(year: int, doy: int, mp: int)
    requires
        0 <= doy <= 365,
        doy == 365 ==> is_leap(year + 1),
        0 <= mp <= 11,
        0 <= doy - (153 * mp + 2) / 5,
        mp < 11 ==> doy < (153 * (mp + 1) + 2) / 5,
    ensures
        ({
            let month = if mp < 10 {
                mp + 3
            } else {
                mp - 9
            };
            let shown = if month <= 2 {
                year + 1
            } else {
                year
            };
            let day = doy - (153 * mp + 2) / 5 + 1;
            &&& is_date(shown, month, day)
            &&& day_number(shown, month, day) == march_days(year) + doy - 719_468
        }),
{
    lemma_march_year(year);
    lemma_month_table(year);
    lemma_month_table(year + 1);
    assert(days_before_year(1970) == 719_162);
}

/// There is a date for every day number.
proof fn lemma_date_exists(days: int)
    ensures
        ({
            let (year, month, day) = date_of(days);
            is_date(year, month, day) && day_number(year, month, day) == days
        }),
{
    let z = days + 719_468;
    let era = if z >= 0 {
        z / 146_097
    } else {
        -((146_096 - z) / 146_097)
    };
    lemma_era(z, era);
    let doe = z - era * 146_097;
    let yoe = (doe - doe / 1460 + doe / 36_524 - doe / 146_096) / 365;
    lemma_year_of_cycle(doe, yoe);
    let doy = doe - (365 * yoe + yoe / 4 - yoe / 100);
    let mp = (5 * doy + 2) / 153;
    lemma_cycle_start(era, yoe);
    lemma_month_of_year(doy, mp);
    lemma_civil(yoe + era * 400, doy, mp);
}

// ---------------------------------------------------------------------------
// Operations
// ---------------------------------------------------------------------------

/// Converts days since the Unix epoch into year, month and day.
pub fn civil_from_days(days: i64) -> (r: (i64, u32, u32))
    requires
        days <= i64::MAX - 719_468,
    ensures
        is_date(r.0 as int, r.1 as int, r.2 as int),
        day_number(r.0 as int, r.1 as int, r.2 as int) == days,
        (r.0 as int, r.1 as int, r.2 as int) == date_of(days as int),
{
    let z: i64 = days + 719_468;
    let era: i64 = if z >= 0 {
        z / 146_097
    } else {
        -((146_096 - z) / 146_097)
    };
    proof {
        lemma_era(z as int, era as int);
    }
    let doe: u64 = (z - era * 146_097) as u64;
    let yoe: u64 = (doe - doe / 1460 + doe / 36_524 - doe / 146_096) / 365;
    proof {
        lemma_year_of_cycle(doe as int, yoe as int);
    }
    let year: i64 = yoe as i64 + era * 400;
    let doy: u64 = doe - (365 * yoe + yoe / 4 - yoe / 100);
    let mp: u64 = (5 * doy + 2) / 153;
    proof {
        lemma_month_of_year(doy as int, mp as int);
    }
    let day: u32 = (doy - (153 * mp + 2) / 5 + 1) as u32;
    let month: u32 = if mp < 10 {
        (mp + 3) as u32
    } else {
        (mp - 9) as u32
    };
    let shown: i64 = if month <= 2 {
        year + 1
    } else {
        year
    };
    proof {
        lemma_cycle_start(era as int, yoe as int);
        lemma_civil(year as int, doy as int, mp as int);
        lemma_date_of(days as int, shown as int, month as int, day as int);
    }
    (shown, month, day)
}

/// Day numbers from 0 on belong to 1970 and later years.
proof fn lemma_year_after_epoch(year: int, month: int, day: int)
    requires
        is_date(year, month, day),
        day_number(year, month, day) >= 0,
    ensures
        year >= 1970,
{
    lemma_month_table(year);
    lemma_year_length(year);
    if year < 1970 {
        lemma_years_ordered(year + 1, 1970);
    }
}

/// Day numbers below that of the year 10000 belong to years of four digits.
proof fn lemma_year_has_four_digits(year: int, month: int, day: int)
    requires
        is_date(year, month, day),
        day_number(year, month, day) < day_number(10_000, 1, 1),
    ensures
        year < 10_000,
{
    lemma_month_table(year);
    lemma_month_table(10_000);
    if year >= 10_000 {
        lemma_years_ordered(10_000, year);
    }
}

/// Up to the end of the year 9999, a date and a time of day take ten and eight
/// characters, with the separators at fixed places.
pub proof fn law_stamp_shape(seconds: nat, sep: char)
    requires
        seconds < 253_402_300_800,
    ensures
        date_text(seconds, sep).len() == 10,
        date_text(seconds, sep)[4] == sep,
        date_text(seconds, sep)[7] == sep,
        clock_text(seconds).len() == 8,
        clock_text(seconds)[2] == ':',
        clock_text(seconds)[5] == ':',
{
    let days = seconds as int / 86_400;
    let (year, month, day) = date_of(days);
    lemma_date_exists(days);
    lemma_year_after_epoch(year, month, day);
    assert(day_number(10_000, 1, 1) == 2_932_897) by {
        lemma_month_table(10_000);
    }
    lemma_year_has_four_digits(year, month, day);
    text::lemma_padded_len(year as nat, 4);
    text::lemma_padded_len(month as nat, 2);
    text::lemma_padded_len(day as nat, 2);
    let rest = seconds % 86_400;
    text::lemma_padded_len(rest / 3600, 2);
    text::lemma_padded_len(rest % 3600 / 60, 2);
    text::lemma_padded_len(rest % 60, 2);
}

/// The UTC date at `seconds` since the Unix epoch.
pub fn date_string(seconds: u64, sep: char) -> (r: String)
    ensures
        r@ == date_text(seconds as nat, sep),
{
    let days: u64 = seconds / DAY_SECONDS;
    let (year, month, day) = civil_from_days(days as i64);
    proof {
        lemma_year_after_epoch(year as int, month as int, day as int);
    }
    let mut out = text::padded(year as u128, 4);
    out.push(sep);
    out.append(text::padded(month as u128, 2).as_str());
    out.push(sep);
    out.append(text::padded(day as u128, 2).as_str());
    assert(out@ == date_text(seconds as nat, sep));
    out
}

/// The UTC time of day at `seconds` since the Unix epoch.
pub fn clock_string(seconds: u64) -> (r: String)
    ensures
        r@ == clock_text(seconds as nat),
{
    let rest: u64 = seconds % DAY_SECONDS;
    let mut out = text::padded((rest / 3600) as u128, 2);
    out.push(':');
    out.append(text::padded((rest % 3600 / 60) as u128, 2).as_str());
    out.push(':');
    out.append(text::padded((rest % 60) as u128, 2).as_str());
    assert(out@ == clock_text(seconds as nat));
    out
}

// ---------------------------------------------------------------------------
// Laws
// ---------------------------------------------------------------------------

/// The calendar begins at 1970-01-01 and goes on day by day: within a month to
/// the next day, at its end to the first of the next month, and at the end of
/// December to the next year. February has 29 days in years that 4 divides, but
/// not 100 unless 400 does.
pub proof fn law_days_follow_one_another(days: int)
    ensures
        date_of(0) == (1970int, 1int, 1int),
        ({
            let (year, month, day) = date_of(days);
            let length: int = if month == 2 {
                if year % 400 == 0 || year % 4 == 0 && year % 100 != 0 {
                    29
                } else {
                    28
                }
            } else if month == 4 || month == 6 || month == 9 || month == 11 {
                30
            } else {
                31
            };
            &&& 1 <= month <= 12
            &&& 1 <= day <= length
            &&& date_of(days + 1) == (if day < length {
                (year, month, day + 1)
            } else if month < 12 {
                (year, month + 1, 1int)
            } else {
                (year + 1, 1int, 1int)
            })
        }),
{
    lemma_month_table(1970);
    lemma_date_of(0, 1970, 1, 1);
    let (year, month, day) = date_of(days);
    lemma_date_exists(days);
    lemma_multiples(year);
    lemma_year_length(year);
    lemma_month_table(year);
    lemma_month_table(year + 1);
    if day < month_days(year, month) {
        lemma_date_of(days + 1, year, month, day + 1);
    } else if month < 12 {
        lemma_date_of(days + 1, year, month + 1, 1);
    } else {
        lemma_date_of(days + 1, year + 1, 1, 1);
    }
}

/// A date is the year, the month and the day of its own, padded to four and to
/// two digits, in any year.
pub proof fn law_dates_are_year_month_and_day(seconds: nat, sep: char)
    ensures
        ({
            let (year, month, day) = date_of(seconds as int / 86_400);
            &&& year >= 1970
            &&& date_text(seconds, sep) == text::padded_text(year as nat, 4) + seq![sep]
                + text::padded_text(month as nat, 2) + seq![sep] + text::padded_text(
                day as nat,
                2,
            )
        }),
{
    let days = seconds as int / 86_400;
    let (year, month, day) = date_of(days);
    lemma_date_exists(days);
    lemma_year_after_epoch(year, month, day);
}

/// A date is written with four digits for the year and two each for the month
/// and the day, up to the end of the year 9999.
pub proof fn law_dates_are_written_in_full(seconds: nat, sep: char)
    requires
        seconds < 253_402_300_800,
    ensures
        ({
            let (year, month, day) = date_of(seconds as int / 86_400);
            &&& 1970 <= year < 10_000
            &&& date_text(seconds, sep) == seq![
                "0123456789"@[year / 1000],
                "0123456789"@[year / 100 % 10],
                "0123456789"@[year / 10 % 10],
                "0123456789"@[year % 10],
                sep,
                "0123456789"@[month / 10],
                "0123456789"@[month % 10],
                sep,
                "0123456789"@[day / 10],
                "0123456789"@[day % 10],
            ]
        }),
{
    let days = seconds as int / 86_400;
    let (year, month, day) = date_of(days);
    lemma_date_exists(days);
    lemma_year_after_epoch(year, month, day);
    assert(day_number(10_000, 1, 1) == 2_932_897) by {
        lemma_month_table(10_000);
    }
    lemma_year_has_four_digits(year, month, day);
    text::law_padded_digits(year as nat);
    text::law_padded_digits(month as nat);
    text::law_padded_digits(day as nat);
    assert(date_text(seconds, sep) =~= seq![
        "0123456789"@[year / 1000],
        "0123456789"@[year / 100 % 10],
        "0123456789"@[year / 10 % 10],
        "0123456789"@[year % 10],
        sep,
        "0123456789"@[month / 10],
        "0123456789"@[month % 10],
        sep,
        "0123456789"@[day / 10],
        "0123456789"@[day % 10],
    ]);
}

/// The time of day is hours, minutes and seconds, with two digits each; the day
/// begins anew after 86400 seconds.
pub proof fn law_the_clock(days: nat, hours: nat, minutes: nat, seconds: nat)
    requires
        hours < 24,
        minutes < 60,
        seconds < 60,
    ensures
        clock_text(86_400 * days + 3600 * hours + 60 * minutes + seconds) == seq![
            "0123456789"@[hours as int / 10],
            "0123456789"@[hours as int % 10],
            ':',
            "0123456789"@[minutes as int / 10],
            "0123456789"@[minutes as int % 10],
            ':',
            "0123456789"@[seconds as int / 10],
            "0123456789"@[seconds as int % 10],
        ],
        (86_400 * days + 3600 * hours + 60 * minutes + seconds) as int / 86_400 == days,
{
    let all = 86_400 * days + 3600 * hours + 60 * minutes + seconds;
    let rest = 3600 * hours + 60 * minutes + seconds;
    assert(all % 86_400 == rest && all / 86_400 == days);
    assert(rest / 3600 == hours && rest % 3600 / 60 == minutes && rest % 60 == seconds);
    text::law_padded_digits(hours);
    text::law_padded_digits(minutes);
    text::law_padded_digits(seconds);
    assert(clock_text(all) =~= seq![
        "0123456789"@[hours as int / 10],
        "0123456789"@[hours as int % 10],
        ':',
        "0123456789"@[minutes as int / 10],
        "0123456789"@[minutes as int % 10],
        ':',
        "0123456789"@[seconds as int / 10],
        "0123456789"@[seconds as int % 10],
    ]);
}

} // verus!
