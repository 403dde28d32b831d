//! The library's model of time. A moment is a Unix timestamp in seconds; the
//! schedule is presented in US Eastern time, whose UT offset comes from the
//! bundled time-zone database behind one trusted wrapper. Everything else —
//! the civil calendar, weekdays, 12-hour clock rendering — is verified.

use vstd::prelude::*;

use crate::strfmt::{dec_digits, digit_char, pad2_digits, pad2_string, u64_string};

verus! {

/// The UT offset, in seconds, of the US Eastern time zone at a given Unix
/// time. Opaque: known only through `et_offset`.
pub uninterp spec fn et_offset_of(ts: int) -> int;

/// Relies on `tz::TimeZoneRef::find_local_time_type` over
/// `tzdb::time_zone::america::NEW_YORK`: for any time from 1970 on, the
/// zone's UT offset is either -18000 (EST) or -14400 (EDT).
#[verifier::external_body]
pub fn et_offset(ts: i64) -> (r: i64)
    requires
        0 <= ts,
    ensures
        r == et_offset_of(ts as int),
        r == -18000 || r == -14400,
{
    match tzdb::time_zone::america::NEW_YORK.find_local_time_type(ts) {
        Ok(l) => l.ut_offset() as i64,
        Err(_) => -18000,
    }
}

/// Local (Eastern) seconds corresponding to a Unix timestamp.
pub open spec fn local_secs(ts: int) -> int {
    ts + et_offset_of(ts)
}

/// The local calendar day number (days since 1970-01-01) of a timestamp.
pub open spec fn day_et(ts: int) -> int {
    local_secs(ts) / 86400
}

/// The local second-of-day of a timestamp.
pub open spec fn sod_et(ts: int) -> int {
    local_secs(ts) - 86400 * day_et(ts)
}

/// The local hour (0..24) of a timestamp.
pub open spec fn hour_et(ts: int) -> int {
    sod_et(ts) / 3600
}

/// The local minute (0..60) of a timestamp.
pub open spec fn minute_et(ts: int) -> int {
    (sod_et(ts) / 60) % 60
}

/// Weekday of a day number, with 0 = Sunday .. 6 = Saturday
/// (day 0, 1970-01-01, was a Thursday).
pub open spec fn weekday_of_day(day: int) -> int {
    (day + 4) % 7
}

/// The highest timestamp the calendar arithmetic supports (end of year
/// 9999, with slack for the UT offset).
pub open spec fn max_calendar_ts() -> int {
    253402214400
}

/// Timestamps the Eastern-time calendar helpers accept: from the first
/// full Eastern day of 1970 through the year 9999.
pub open spec fn ts_in_range(ts: int) -> bool {
    18000 <= ts <= max_calendar_ts()
}

/// A proleptic Gregorian calendar date.
#[derive(Clone, Copy, Debug, PartialEq, Eq, Structural)]
pub struct CivilDate {
    pub year: i64,
    pub month: i64,
    pub day: i64,
}

/// Gregorian leap year.
pub open spec fn is_leap(y: int) -> bool {
    y % 4 == 0 && (y % 100 != 0 || y % 400 == 0)
}

/// Days in a Gregorian year.
pub open spec fn days_in_year(y: int) -> int {
    if is_leap(y) {
        366
    } else {
        365
    }
}

/// Days in a Gregorian month.
pub open spec fn days_in_month(y: int, m: int) -> int {
    if m == 1 {
        31
    } else if m == 2 {
        if is_leap(y) {
            29
        } else {
            28
        }
    } else if m == 3 {
        31
    } else if m == 4 {
        30
    } else if m == 5 {
        31
    } else if m == 6 {
        30
    } else if m == 7 {
        31
    } else if m == 8 {
        31
    } else if m == 9 {
        30
    } else if m == 10 {
        31
    } else if m == 11 {
        30
    } else {
        31
    }
}

/// Day number of January 1 of a year at or after 1970.
pub open spec fn days_to_year(y: int) -> int
    decreases y - 1970,
{
    if y <= 1970 {
        0
    } else {
        days_to_year(y - 1) + days_in_year(y - 1)
    }
}

/// Days from the start of the year to the start of a month.
pub open spec fn days_to_month(y: int, m: int) -> int
    decreases m,
{
    if m <= 1 {
        0
    } else {
        days_to_month(y, m - 1) + days_in_month(y, m - 1)
    }
}

/// The day number (days since 1970-01-01) of a calendar date.
pub open spec fn days_from_civil(y: int, m: int, d: int) -> int {
    days_to_year(y) + days_to_month(y, m) + d - 1
}

/// A well-formed date within the supported range.
pub open spec fn valid_civil(c: CivilDate) -> bool {
    1970 <= c.year && 1 <= c.month <= 12 && 1 <= c.day <= days_in_month(
        c.year as int,
        c.month as int,
    )
}

proof fn lemma_days_to_year_mono(a: int, b: int)
    requires
        1970 <= a <= b,
    ensures
        days_to_year(a) <= days_to_year(b),
    decreases b - a,
{
    if a < b {
        lemma_days_to_year_mono(a, b - 1);
    }
}

proof fn lemma_days_to_month_mono(y: int, a: int, b: int)
    requires
        1 <= a <= b <= 13,
    ensures
        days_to_month(y, a) <= days_to_month(y, b),
    decreases b - a,
{
    if a < b {
        lemma_days_to_month_mono(y, a, b - 1);
    }
}

/// The within-year day offset of a valid date lies inside its year.
proof fn lemma_offset_in_year(c: CivilDate)
    requires
        valid_civil(c),
    ensures
        0 <= days_to_month(c.year as int, c.month as int) + c.day - 1 < days_in_year(
            c.year as int,
        ),
{
    let y = c.year as int;
    let m = c.month as int;
    lemma_days_to_month_mono(y, 1, m);
    lemma_days_to_month_mono(y, m + 1, 13);
    lemma_year_days_to_month(y);
    assert(days_to_month(y, m + 1) == days_to_month(y, m) + days_in_month(y, m));
}

/// A day number determines the calendar date: no two well-formed dates
/// share one, so everything derived from a date in this module is a
/// function of the timestamp.
pub proof fn lemma_civil_date_unique(c1: CivilDate, c2: CivilDate)
    requires
        valid_civil(c1),
        valid_civil(c2),
        days_from_civil(c1.year as int, c1.month as int, c1.day as int) == days_from_civil(
            c2.year as int,
            c2.month as int,
            c2.day as int,
        ),
    ensures
        c1 == c2,
{
    let y1 = c1.year as int;
    let y2 = c2.year as int;
    lemma_offset_in_year(c1);
    lemma_offset_in_year(c2);
    if y1 < y2 {
        lemma_days_to_year_mono(y1 + 1, y2);
        assert(false);
    } else if y2 < y1 {
        lemma_days_to_year_mono(y2 + 1, y1);
        assert(false);
    }
    let y = y1;
    let m1 = c1.month as int;
    let m2 = c2.month as int;
    if m1 < m2 {
        lemma_days_to_month_mono(y, m1 + 1, m2);
        assert(days_to_month(y, m1 + 1) == days_to_month(y, m1) + days_in_month(y, m1));
        assert(false);
    } else if m2 < m1 {
        lemma_days_to_month_mono(y, m2 + 1, m1);
        assert(days_to_month(y, m2 + 1) == days_to_month(y, m2) + days_in_month(y, m2));
        assert(false);
    }
}

proof fn lemma_year_days_to_month(y: int)
    ensures
        days_to_month(y, 13) == days_in_year(y),
{
    reveal_with_fuel(days_to_month, 14);
}


fn exec_is_leap(y: i64) -> (r: bool)
    requires
        0 <= y,
    ensures
        r == is_leap(y as int),
{
    y % 4 == 0 && (y % 100 != 0 || y % 400 == 0)
}

fn exec_days_in_year(y: i64) -> (r: i64)
    requires
        0 <= y,
    ensures
        r == days_in_year(y as int),
{
    if exec_is_leap(y) {
        366
    } else {
        365
    }
}

fn exec_days_in_month(y: i64, m: i64) -> (r: i64)
    requires
        0 <= y,
        1 <= m <= 12,
    ensures
        r == days_in_month(y as int, m as int),
{
    if m == 1 {
        31
    } else if m == 2 {
        if exec_is_leap(y) {
            29
        } else {
            28
        }
    } else if m == 3 {
        31
    } else if m == 4 {
        30
    } else if m == 5 {
        31
    } else if m == 6 {
        30
    } else if m == 7 {
        31
    } else if m == 8 {
        31
    } else if m == 9 {
        30
    } else if m == 10 {
        31
    } else if m == 11 {
        30
    } else {
        31
    }
}

/// The calendar date of a day number: the unique well-formed date whose
/// `days_from_civil` is the given day.
pub fn civil_from_days(z: i64) -> (r: CivilDate)
    requires
        0 <= z < 2932897,
    ensures
        valid_civil(r),
        days_from_civil(r.year as int, r.month as int, r.day as int) == z,
{
    let mut y: i64 = 1970;
    let mut acc: i64 = 0;
    while acc + exec_days_in_year(y) <= z
        invariant
            1970 <= y,
            0 <= acc <= z,
            z < 2932897,
            acc == days_to_year(y as int),
            y <= 1970 + acc,
        decreases z - acc,
    {
        acc = acc + exec_days_in_year(y);
        y = y + 1;
    }
    let rem: i64 = z - acc;
    proof {
        lemma_year_days_to_month(y as int);
    }
    let mut m: i64 = 1;
    let mut macc: i64 = 0;
    while m < 12 && macc + exec_days_in_month(y, m) <= rem
        invariant
            0 <= y,
            1 <= m <= 12,
            0 <= macc <= rem,
            rem < days_in_year(y as int),
            days_to_month(y as int, 13) == days_in_year(y as int),
            macc == days_to_month(y as int, m as int),
        decreases 12 - m,
    {
        macc = macc + exec_days_in_month(y, m);
        m = m + 1;
    }
    proof {
        if !(rem - macc < days_in_month(y as int, m as int)) {
            // the month loop only stops at 12 when the remainder fits December
            assert(m == 12);
            assert(days_to_month(y as int, 13) == macc + days_in_month(y as int, 12));
        }
    }
    let d: i64 = rem - macc + 1;
    CivilDate { year: y, month: m, day: d }
}

/// Floor division by a positive constant for non-negative numerators.
fn div_floor_nonneg(a: i64, b: i64) -> (r: i64)
    requires
        0 <= a,
        0 < b,
    ensures
        r == a as int / b as int,
{
    a / b
}

/// The local calendar day number of a timestamp.
pub fn exec_day_et(ts: i64) -> (r: i64)
    requires
        18000 <= ts,
    ensures
        r == day_et(ts as int),
        0 <= r,
        -18000 <= et_offset_of(ts as int) <= -14400,
{
    let off = et_offset(ts);
    let local = ts + off;
    div_floor_nonneg(local, 86400)
}

proof fn lemma_day_bound(local: int)
    requires
        0 <= local < 253402300800,
    ensures
        0 <= local / 86400 < 2932897,
{
    assert(0 <= local / 86400 < 2932897) by (nonlinear_arith)
        requires
            0 <= local < 253402300800,
    ;
}

/// The local (hour, minute) of a timestamp.
pub fn exec_hour_minute_et(ts: i64) -> (r: (u8, u8))
    requires
        18000 <= ts,
    ensures
        r.0 == hour_et(ts as int),
        r.1 == minute_et(ts as int),
        r.0 < 24,
        r.1 < 60,
{
    let off = et_offset(ts);
    let local = ts + off;
    let day = div_floor_nonneg(local, 86400);
    let sod = local - day * 86400;
    let h = div_floor_nonneg(sod, 3600);
    let mi = div_floor_nonneg(sod, 60) % 60;
    (h as u8, mi as u8)
}

/// The local calendar date of a timestamp.
pub fn exec_date_et(ts: i64) -> (r: CivilDate)
    requires
        ts_in_range(ts as int),
    ensures
        valid_civil(r),
        days_from_civil(r.year as int, r.month as int, r.day as int) == day_et(ts as int),
{
    let day = exec_day_et(ts);
    proof {
        lemma_day_bound(local_secs(ts as int));
    }
    civil_from_days(day)
}

/// The English name of a weekday (0 = Sunday .. 6 = Saturday).
pub open spec fn weekday_name(w: int) -> Seq<char> {
    if w == 0 {
        "Sunday"@
    } else if w == 1 {
        "Monday"@
    } else if w == 2 {
        "Tuesday"@
    } else if w == 3 {
        "Wednesday"@
    } else if w == 4 {
        "Thursday"@
    } else if w == 5 {
        "Friday"@
    } else {
        "Saturday"@
    }
}

/// The English name of a month (1 = January .. 12 = December).
pub open spec fn month_name(m: int) -> Seq<char> {
    if m == 1 {
        "January"@
    } else if m == 2 {
        "February"@
    } else if m == 3 {
        "March"@
    } else if m == 4 {
        "April"@
    } else if m == 5 {
        "May"@
    } else if m == 6 {
        "June"@
    } else if m == 7 {
        "July"@
    } else if m == 8 {
        "August"@
    } else if m == 9 {
        "September"@
    } else if m == 10 {
        "October"@
    } else if m == 11 {
        "November"@
    } else {
        "December"@
    }
}

/// The hour on a 12-hour clock face.
pub open spec fn hour12(h: int) -> int {
    if h == 0 {
        12
    } else if h > 12 {
        h - 12
    } else {
        h
    }
}

/// The meridiem suffix of an hour.
pub open spec fn ampm(h: int) -> Seq<char> {
    if h >= 12 {
        "PM"@
    } else {
        "AM"@
    }
}

/// A clock time rendered as e.g. `9:30 PM`.
pub open spec fn time_string_seq(h: int, mi: int) -> Seq<char> {
    dec_digits(hour12(h) as nat) + ":"@ + pad2_digits(mi as nat) + " "@ + ampm(h)
}

/// A date rendered as e.g. `Friday, March 5` (weekday from the day
/// number, month and day-of-month from the date).
pub open spec fn date_string_seq(w: int, m: int, d: int) -> Seq<char> {
    weekday_name(w) + ", "@ + month_name(m) + " "@ + dec_digits(d as nat)
}

fn exec_weekday_name(w: i64) -> (r: &'static str)
    requires
        0 <= w < 7,
    ensures
        r@ == weekday_name(w as int),
{
    if w == 0 {
        "Sunday"
    } else if w == 1 {
        "Monday"
    } else if w == 2 {
        "Tuesday"
    } else if w == 3 {
        "Wednesday"
    } else if w == 4 {
        "Thursday"
    } else if w == 5 {
        "Friday"
    } else {
        "Saturday"
    }
}

fn exec_month_name(m: i64) -> (r: &'static str)
    requires
        1 <= m <= 12,
    ensures
        r@ == month_name(m as int),
{
    if m == 1 {
        "January"
    } else if m == 2 {
        "February"
    } else if m == 3 {
        "March"
    } else if m == 4 {
        "April"
    } else if m == 5 {
        "May"
    } else if m == 6 {
        "June"
    } else if m == 7 {
        "July"
    } else if m == 8 {
        "August"
    } else if m == 9 {
        "September"
    } else if m == 10 {
        "October"
    } else if m == 11 {
        "November"
    } else {
        "December"
    }
}

/// Renders a wall-clock time as e.g. `9:30 PM`.
pub fn time_string(h: u8, mi: u8) -> (r: String)
    requires
        h < 24,
        mi < 60,
    ensures
        r@ == time_string_seq(h as int, mi as int),
{
    let h12: u8 = if h == 0 {
        12
    } else if h > 12 {
        h - 12
    } else {
        h
    };
    let mut r = u64_string(h12 as u64);
    r.append(":");
    let p = pad2_string(mi);
    r.append(p.as_str());
    r.append(" ");
    if h >= 12 {
        r.append("PM");
    } else {
        r.append("AM");
    }
    r
}

/// Renders a date (with its weekday) as e.g. `Friday, March 5`.
pub fn date_string(w: i64, c: CivilDate) -> (r: String)
    requires
        0 <= w < 7,
        valid_civil(c),
    ensures
        r@ == date_string_seq(w as int, c.month as int, c.day as int),
{
    let mut r = String::new();
    r.append(exec_weekday_name(w));
    r.append(", ");
    r.append(exec_month_name(c.month));
    r.append(" ");
    let d = u64_string(c.day as u64);
    r.append(d.as_str());
    r
}

/// The weekday (0 = Sunday .. 6 = Saturday) of a day number.
pub fn exec_weekday_of_day(day: i64) -> (r: i64)
    requires
        0 <= day < 4611686018427387904,
    ensures
        r == weekday_of_day(day as int),
        0 <= r < 7,
{
    (day + 4) % 7
}

/// The timestamp that interprets a (day number, hour, minute) as Eastern
/// wall-clock time, the way the scheduler builds suggestions: read the
/// wall clock as UTC first and shift by the offset in effect at that
/// instant.
pub open spec fn spec_new_et(day: int, h: int, mi: int) -> int {
    let ts0 = day * 86400 + h * 3600 + mi * 60;
    ts0 - et_offset_of(ts0)
}

/// Builds the timestamp of an Eastern wall-clock moment on a day.
pub fn exec_new_et(day: i64, h: u8, mi: u8) -> (r: i64)
    requires
        0 <= day <= 2932000,
        h < 24,
        mi < 60,
    ensures
        r == spec_new_et(day as int, h as int, mi as int),
        14400 <= r <= 253324904340,
        day >= 1 ==> ts_in_range(r as int),
{
    let ts0: i64 = day * 86400 + (h as i64) * 3600 + (mi as i64) * 60;
    let off = et_offset(ts0);
    ts0 - off
}

/// A timestamp rendered in Eastern time, e.g. `Friday, March 5 at 9:30 PM`;
/// the date shown is the one whose day number is the timestamp's Eastern
/// day.
pub fn string_et(ts: i64) -> (r: String)
    requires
        ts_in_range(ts as int),
    ensures
        exists|c: CivilDate|
            valid_civil(c) && days_from_civil(c.year as int, c.month as int, c.day as int)
                == day_et(ts as int) && r@ == date_string_seq(
                weekday_of_day(day_et(ts as int)),
                c.month as int,
                c.day as int,
            ) + " at "@ + time_string_seq(hour_et(ts as int), minute_et(ts as int)),
{
    let day = exec_day_et(ts);
    let c = exec_date_et(ts);
    let w = exec_weekday_of_day(day);
    let (h, mi) = exec_hour_minute_et(ts);
    let mut r = date_string(w, c);
    r.append(" at ");
    let t = time_string(h, mi);
    r.append(t.as_str());
    r
}

/// What the relative Eastern rendering of a timestamp is: `Today at`/
/// `Tomorrow at` plus the clock time for the current and following
/// Eastern day, and the full date form (for the unique date of that day
/// number) otherwise.
pub open spec fn relative_string_ok(ts: int, now: int, s: Seq<char>) -> bool {
    if day_et(ts) == day_et(now) {
        s == "Today at "@ + time_string_seq(hour_et(ts), minute_et(ts))
    } else if day_et(ts) == day_et(now) + 1 {
        s == "Tomorrow at "@ + time_string_seq(hour_et(ts), minute_et(ts))
    } else {
        exists|c: CivilDate|
            valid_civil(c) && days_from_civil(c.year as int, c.month as int, c.day as int)
                == day_et(ts) && s == date_string_seq(
                weekday_of_day(day_et(ts)),
                c.month as int,
                c.day as int,
            ) + " at "@ + time_string_seq(hour_et(ts), minute_et(ts))
    }
}

/// A timestamp rendered relative to "now" in Eastern time: `Today at 9:30
/// PM`, `Tomorrow at 9:30 PM`, or the full date form.
pub fn string_et_relative(ts: i64, now: i64) -> (r: String)
    requires
        ts_in_range(ts as int),
        18000 <= now,
    ensures
        relative_string_ok(ts as int, now as int, r@),
{
    let day = exec_day_et(ts);
    let today = exec_day_et(now);
    let (h, mi) = exec_hour_minute_et(ts);
    let t = time_string(h, mi);
    if day == today {
        let mut r = String::new();
        r.append("Today at ");
        r.append(t.as_str());
        r
    } else if today < i64::MAX && day == today + 1 {
        let mut r = String::new();
        r.append("Tomorrow at ");
        r.append(t.as_str());
        r
    } else {
        let c = exec_date_et(ts);
        let w = exec_weekday_of_day(day);
        let mut r = date_string(w, c);
        r.append(" at ");
        r.append(t.as_str());
        r
    }
}

} // verus!
