//! Calendar dates as plain values: validity, day numbers, parsing and
//! formatting. The proleptic Gregorian rules are spelled out here so date
//! logic can be stated and checked exactly.

use vstd::prelude::*;

use crate::host::today_ymd;
use crate::model::Date;
use crate::strutil::{
    find_char, parse_u64_digits, spec_dec, spec_find_char, spec_parse_u64_digits, u64_to_string,
};

verus! {

/// A leap year divides by four, except century years, except every
/// fourth century.
pub open spec fn spec_is_leap(y: int) -> bool {
    (y % 4 == 0 && y % 100 != 0) || y % 400 == 0
}

/// The number of days in a month.
pub open spec fn spec_days_in_month(y: int, m: int) -> int {
    if m == 2 {
        if spec_is_leap(y) {
            29
        } else {
            28
        }
    } else if m == 4 || m == 6 || m == 9 || m == 11 {
        30
    } else {
        31
    }
}

impl Date {
    /// A well-formed calendar date, within the years this library
    /// handles.
    pub open spec fn wf(self) -> bool {
        &&& 1 <= self.year <= 9999
        &&& 1 <= self.month <= 12
        &&& 1 <= self.day <= spec_days_in_month(self.year as int, self.month as int)
    }
}

/// Whether `y` is a leap year.
pub fn is_leap(y: i32) -> (r: bool)
    ensures
        r == spec_is_leap(y as int),
{
    (y % 4 == 0 && y % 100 != 0) || y % 400 == 0
}

/// The number of days in a month.
pub fn days_in_month(y: i32, m: u8) -> (r: u8)
    requires
        1 <= m <= 12,
    ensures
        r == spec_days_in_month(y as int, m as int),
{
    if m == 2 {
        if is_leap(y) {
            29
        } else {
            28
        }
    } else if m == 4 || m == 6 || m == 9 || m == 11 {
        30
    } else {
        31
    }
}

/// The day number of a date: days since the epoch date, negative before
/// it. Proleptic Gregorian, computed era by era.
pub open spec fn spec_day_number(d: Date) -> int {
    let y: int = if d.month <= 2 {
        d.year - 1
    } else {
        d.year as int
    };
    let era = y / 400;
    let yoe = y - era * 400;
    let mp = (d.month + 9) % 12;
    let doy = (153 * mp + 2) / 5 + d.day - 1;
    let doe = yoe * 365 + yoe / 4 - yoe / 100 + doy;
    era * 146097 + doe - 719468
}

/// Compute a date's day number.
pub fn day_number(d: &Date) -> (r: i64)
    requires
        d.wf(),
    ensures
        r == spec_day_number(*d),
{
    let y: i64 = if d.month <= 2 {
        d.year as i64 - 1
    } else {
        d.year as i64
    };
    let era: i64 = y / 400;
    let yoe: i64 = y - era * 400;
    let mp: i64 = (d.month as i64 + 9) % 12;
    let doy: i64 = (153 * mp + 2) / 5 + d.day as i64 - 1;
    let doe: i64 = yoe * 365 + yoe / 4 - yoe / 100 + doy;
    era * 146097 + doe - 719468
}

/// Today's local calendar date, when the clock reports one this library
/// can hold: the month and day ranges are checked here, whatever the
/// clock said.
pub fn today() -> (r: Option<Date>)
    ensures
        r is Some ==> r->0.wf(),
{
    let (y, m, d) = today_ymd();
    if !(1 <= y && y <= 9999) {
        return None;
    }
    let dim = days_in_month(y, m);
    if d > dim {
        return None;
    }
    Some(Date { year: y, month: m, day: d })
}

/// The day after a date.
pub open spec fn spec_next_day(d: Date) -> Date {
    if d.day < spec_days_in_month(d.year as int, d.month as int) {
        Date { year: d.year, month: d.month, day: (d.day + 1) as u8 }
    } else if d.month < 12 {
        Date { year: d.year, month: (d.month + 1) as u8, day: 1 }
    } else {
        Date { year: (d.year + 1) as i32, month: 1, day: 1 }
    }
}

/// The day after a date.
pub fn next_day(d: &Date) -> (r: Date)
    requires
        d.wf(),
        d.year < 9999 || !(d.month == 12 && d.day == 31),
    ensures
        r == spec_next_day(*d),
        r.wf(),
{
    let dim = days_in_month(d.year, d.month);
    if d.day < dim {
        Date { year: d.year, month: d.month, day: d.day + 1 }
    } else if d.month < 12 {
        Date { year: d.year, month: d.month + 1, day: 1 }
    } else {
        Date { year: d.year + 1, month: 1, day: 1 }
    }
}

/// Lexicographic date order: year, then month, then day.
pub open spec fn spec_date_lt(a: Date, b: Date) -> bool {
    a.year < b.year || (a.year == b.year && (a.month < b.month || (a.month == b.month && a.day
        < b.day)))
}

/// Whether `a` falls strictly before `b`.
pub fn date_lt(a: &Date, b: &Date) -> (r: bool)
    ensures
        r == spec_date_lt(*a, *b),
{
    a.year < b.year || (a.year == b.year && (a.month < b.month || (a.month == b.month && a.day
        < b.day)))
}

/// A number zero-padded to two digits.
pub open spec fn spec_pad2(n: nat) -> Seq<char> {
    if n < 10 {
        "0"@ + spec_dec(n)
    } else {
        spec_dec(n)
    }
}

/// A number zero-padded to four digits.
pub open spec fn spec_pad4(n: nat) -> Seq<char> {
    if n < 10 {
        "000"@ + spec_dec(n)
    } else if n < 100 {
        "00"@ + spec_dec(n)
    } else if n < 1000 {
        "0"@ + spec_dec(n)
    } else {
        spec_dec(n)
    }
}

fn pad2(n: u64) -> (r: String)
    ensures
        r@ == spec_pad2(n as nat),
{
    let num = u64_to_string(n);
    if n < 10 {
        let mut r = "0".to_owned();
        r.append(num.as_str());
        r
    } else {
        num
    }
}

fn pad4(n: u64) -> (r: String)
    ensures
        r@ == spec_pad4(n as nat),
{
    let num = u64_to_string(n);
    if n < 10 {
        let mut r = "000".to_owned();
        r.append(num.as_str());
        r
    } else if n < 100 {
        let mut r = "00".to_owned();
        r.append(num.as_str());
        r
    } else if n < 1000 {
        let mut r = "0".to_owned();
        r.append(num.as_str());
        r
    } else {
        num
    }
}

/// A date rendered as zero-padded year-month-day.
pub open spec fn spec_format_date(d: Date) -> Seq<char> {
    spec_pad4(d.year as nat) + "-"@ + spec_pad2(d.month as nat) + "-"@ + spec_pad2(d.day as nat)
}

/// Render a date as zero-padded year-month-day.
pub fn format_date(d: &Date) -> (r: String)
    requires
        d.wf(),
    ensures
        r@ == spec_format_date(*d),
{
    let mut r = pad4(d.year as u64);
    r.append("-");
    let m = pad2(d.month as u64);
    r.append(m.as_str());
    r.append("-");
    let dd = pad2(d.day as u64);
    r.append(dd.as_str());
    r
}

/// What a year-month-day string parses to: three dash-separated digit
/// groups of plausible width, forming a well-formed date; anything else
/// is nothing.
pub open spec fn spec_parse_date(s: Seq<char>) -> Option<Date> {
    let i = spec_find_char(s, '-');
    if i < 0 {
        None
    } else {
        let rest = s.subrange(i + 1, s.len() as int);
        let j = spec_find_char(rest, '-');
        if j < 0 {
            None
        } else {
            let ys = s.subrange(0, i);
            let ms = rest.subrange(0, j);
            let ds = rest.subrange(j + 1, rest.len() as int);
            if 1 <= ys.len() <= 4 && 1 <= ms.len() <= 2 && 1 <= ds.len() <= 2 && spec_find_char(
                ds,
                '-',
            ) == -1 {
                match (spec_parse_u64_digits(ys), spec_parse_u64_digits(ms), spec_parse_u64_digits(
                    ds,
                )) {
                    (Some(y), Some(m), Some(d)) => {
                        let cand = Date { year: y as i32, month: m as u8, day: d as u8 };
                        if 1 <= y <= 9999 && 1 <= m <= 12 && 1 <= d <= 31 && cand.wf() {
                            Some(cand)
                        } else {
                            None
                        }
                    },
                    _ => None,
                }
            } else {
                None
            }
        }
    }
}

/// Parse a year-month-day date string.
pub fn parse_date(s: &str) -> (r: Option<Date>)
    ensures
        r == spec_parse_date(s@),
        r is Some ==> r->0.wf(),
{
    let n = s.unicode_len();
    let i = match find_char(s, '-') {
        Some(i) => i,
        None => {
            return None;
        },
    };
    let rest = s.substring_char(i + 1, n);
    let rn = rest.unicode_len();
    let j = match find_char(rest, '-') {
        Some(j) => j,
        None => {
            return None;
        },
    };
    let ys = s.substring_char(0, i);
    let ms = rest.substring_char(0, j);
    let ds = rest.substring_char(j + 1, rn);
    let ys_len = ys.unicode_len();
    let ms_len = ms.unicode_len();
    let ds_len = ds.unicode_len();
    if !(1 <= ys_len && ys_len <= 4 && 1 <= ms_len && ms_len <= 2 && 1 <= ds_len && ds_len <= 2) {
        return None;
    }
    match find_char(ds, '-') {
        Some(_) => {
            return None;
        },
        None => {},
    }
    let y = match parse_u64_digits(ys) {
        Some(y) => y,
        None => {
            return None;
        },
    };
    let m = match parse_u64_digits(ms) {
        Some(m) => m,
        None => {
            return None;
        },
    };
    let d = match parse_u64_digits(ds) {
        Some(d) => d,
        None => {
            return None;
        },
    };
    if !(1 <= y && y <= 9999 && 1 <= m && m <= 12 && 1 <= d && d <= 31) {
        return None;
    }
    let cand = Date { year: y as i32, month: m as u8, day: d as u8 };
    let dim = days_in_month(cand.year, cand.month);
    if cand.day > dim {
        return None;
    }
    Some(cand)
}

} // verus!
