//! Calendar dates as plain numbers: strict `dd/mm/yyyy` parsing, day
//! numbering in the proleptic Gregorian calendar, the weekday of a reference
//! instant in the fixed UTC+7 zone, and the upcoming-exam window.

use vstd::prelude::*;
use vstd::string::StrSliceExecFns;

verus! {

/// Seconds east of UTC of the fixed reference timezone (UTC+7).
pub const TZ_OFFSET_SECS: u64 = 25200;

/// Seconds in one day.
pub const DAY_SECS: u64 = 86400;

/// An ASCII decimal digit.
pub open spec fn is_digit(c: char) -> bool {
    0x30 <= c as u32 && c as u32 <= 0x39
}

/// The numeric value of an ASCII decimal digit.
pub open spec fn dval(c: char) -> int {
    c as u32 - 0x30
}

/// The string has the exact shape `dd/mm/yyyy`: two digits, a slash, two
/// digits, a slash, four digits.
pub open spec fn date_shape(s: Seq<char>) -> bool {
    &&& s.len() == 10
    &&& is_digit(s[0])
    &&& is_digit(s[1])
    &&& s[2] == '/'
    &&& is_digit(s[3])
    &&& is_digit(s[4])
    &&& s[5] == '/'
    &&& is_digit(s[6])
    &&& is_digit(s[7])
    &&& is_digit(s[8])
    &&& is_digit(s[9])
}

/// The day field of a `dd/mm/yyyy` string.
pub open spec fn shaped_day(s: Seq<char>) -> int {
    10 * dval(s[0]) + dval(s[1])
}

/// The month field of a `dd/mm/yyyy` string.
pub open spec fn shaped_month(s: Seq<char>) -> int {
    10 * dval(s[3]) + dval(s[4])
}

/// The year field of a `dd/mm/yyyy` string.
pub open spec fn shaped_year(s: Seq<char>) -> int {
    1000 * dval(s[6]) + 100 * dval(s[7]) + 10 * dval(s[8]) + dval(s[9])
}

/// A Gregorian leap year.
pub open spec fn is_leap_year(y: int) -> bool {
    y % 4 == 0 && (y % 100 != 0 || y % 400 == 0)
}

/// How many days month `m` of year `y` has.
pub open spec fn days_in_month(y: int, m: int) -> int {
    if m == 2 {
        if is_leap_year(y) {
            29
        } else {
            28
        }
    } else if m == 4 || m == 6 || m == 9 || m == 11 {
        30
    } else {
        31
    }
}

/// A real calendar date with a four-digit year.
pub open spec fn valid_civil_date(y: int, m: int, d: int) -> bool {
    &&& 1 <= y <= 9999
    &&& 1 <= m <= 12
    &&& 1 <= d <= days_in_month(y, m)
}

/// A calendar date as plain numbers.
#[derive(Clone, Copy, PartialEq, Eq, Structural, Debug)]
pub struct CivilDate {
    pub year: u64,
    pub month: u64,
    pub day: u64,
}

/// The date denotes a real day with a four-digit year.
pub open spec fn date_valid(d: CivilDate) -> bool {
    valid_civil_date(d.year as int, d.month as int, d.day as int)
}

/// What strict `dd/mm/yyyy` parsing yields: the date when the string has the
/// exact shape and denotes a real calendar day, nothing otherwise.
pub open spec fn parse_date_spec(s: Seq<char>) -> Option<CivilDate> {
    if date_shape(s) && valid_civil_date(shaped_year(s), shaped_month(s), shaped_day(s)) {
        Some(
            CivilDate {
                year: shaped_year(s) as u64,
                month: shaped_month(s) as u64,
                day: shaped_day(s) as u64,
            },
        )
    } else {
        None
    }
}

/// The numeric value of an ASCII decimal digit, or nothing.
fn digit_of(c: char) -> (r: Option<u64>)
    ensures
        r is Some <==> is_digit(c),
        r is Some ==> r->0 == dval(c),
{
    let u = c as u32;
    if 0x30 <= u && u <= 0x39 {
        Some((u - 0x30) as u64)
    } else {
        None
    }
}

/// How many days month `m` of year `y` has.
pub fn days_in_month_of(y: u64, m: u64) -> (n: u64)
    requires
        1 <= m <= 12,
    ensures
        n == days_in_month(y as int, m as int),
{
    if m == 2 {
        if y % 4 == 0 && (y % 100 != 0 || y % 400 == 0) {
            29
        } else {
            28
        }
    } else if m == 4 || m == 6 || m == 9 || m == 11 {
        30
    } else {
        31
    }
}

/// Parses a date written exactly as `dd/mm/yyyy` into a real calendar date;
/// any other string yields nothing.
pub fn parse_exam_date(s: &str) -> (r: Option<CivilDate>)
    ensures
        r == parse_date_spec(s@),
{
    let n = s.unicode_len();
    if n != 10 {
        return None;
    }
    if s.get_char(2) != '/' || s.get_char(5) != '/' {
        return None;
    }
    let d0 = digit_of(s.get_char(0));
    let d1 = digit_of(s.get_char(1));
    let m0 = digit_of(s.get_char(3));
    let m1 = digit_of(s.get_char(4));
    let y0 = digit_of(s.get_char(6));
    let y1 = digit_of(s.get_char(7));
    let y2 = digit_of(s.get_char(8));
    let y3 = digit_of(s.get_char(9));
    match (d0, d1, m0, m1, y0, y1, y2, y3) {
        (Some(d0), Some(d1), Some(m0), Some(m1), Some(y0), Some(y1), Some(y2), Some(y3)) => {
            let day = 10 * d0 + d1;
            let month = 10 * m0 + m1;
            let year = 1000 * y0 + 100 * y1 + 10 * y2 + y3;
            if year < 1 || month < 1 || month > 12 {
                return None;
            }
            if day < 1 || day > days_in_month_of(year, month) {
                return None;
            }
            Some(CivilDate { year, month, day })
        },
        _ => None,
    }
}

/// Days since 1970-01-01 of the given date in the proleptic Gregorian
/// calendar, defined by era-of-400-years arithmetic.
pub open spec fn days_from_civil(y: int, m: int, d: int) -> int {
    let yy = if m <= 2 {
        y - 1
    } else {
        y
    };
    let era = yy / 400;
    let yoe = yy - era * 400;
    let mp = if m > 2 {
        m - 3
    } else {
        m + 9
    };
    let doy = (153 * mp + 2) / 5 + d - 1;
    let doe = yoe * 365 + yoe / 4 - yoe / 100 + doy;
    era * 146097 + doe - 719468
}

/// The day number (days since 1970-01-01) of a date.
pub fn civil_day_number(date: &CivilDate) -> (days: i64)
    requires
        date_valid(*date),
    ensures
        days == days_from_civil(date.year as int, date.month as int, date.day as int),
{
    let y = date.year;
    let m = date.month;
    let d = date.day;
    let yy: u64 = if m <= 2 {
        y - 1
    } else {
        y
    };
    let era: u64 = yy / 400;
    let yoe: u64 = yy - era * 400;
    let mp: u64 = if m > 2 {
        m - 3
    } else {
        m + 9
    };
    let doy: u64 = (153 * mp + 2) / 5 + d - 1;
    let doe: u64 = yoe * 365 + yoe / 4 - yoe / 100 + doy;
    (era as i64) * 146097 + (doe as i64) - 719468
}

/// The local calendar day (days since the epoch day, in UTC+7) that an
/// instant falls on.
pub open spec fn local_day_of_instant(now_secs: int) -> int {
    (now_secs + 25200) / 86400
}

/// The weekday of a day number: 0 = Monday through 6 = Sunday.
pub open spec fn weekday_of_day(day: int) -> int {
    (day + 3) % 7
}

/// The weekday (0 = Monday .. 6 = Sunday) of an instant in UTC+7.
pub open spec fn weekday_of_instant(now_secs: int) -> int {
    weekday_of_day(local_day_of_instant(now_secs))
}

/// The weekday index (0 = Monday .. 6 = Sunday) of an epoch instant, read in
/// the fixed UTC+7 zone.
pub fn weekday_index_of_instant(now_secs: u64) -> (w: u64)
    requires
        now_secs + 25200 <= u64::MAX,
    ensures
        w == weekday_of_instant(now_secs as int),
        w < 7,
{
    let day = (now_secs + TZ_OFFSET_SECS) / DAY_SECS;
    (day + 3) % 7
}

/// An exam date is upcoming when its local midnight plus one day of grace is
/// not before the reference instant.
pub open spec fn date_upcoming(y: int, m: int, d: int, now_secs: int) -> bool {
    days_from_civil(y, m, d) * 86400 - 25200 + 86400 >= now_secs
}

/// Whether the exam date is still upcoming at the reference instant.
pub fn is_upcoming(date: &CivilDate, now_secs: u64) -> (b: bool)
    requires
        date_valid(*date),
    ensures
        b == date_upcoming(date.year as int, date.month as int, date.day as int, now_secs as int),
{
    let days = civil_day_number(date);
    proof {
        assert(-1000000 <= days <= 4000000);
    }
    let cutoff: i64 = days * 86400 - 25200 + 86400;
    if cutoff < 0 {
        false
    } else {
        (cutoff as u64) >= now_secs
    }
}

} // verus!
