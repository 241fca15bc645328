//! Gregorian calendar dates, compared by calendar value. The schedule keys
//! its entries by dates written as `MM/DD/YYYY`.

use vstd::prelude::*;
use vstd::string::StrSliceExecFns;
use crate::num::{digit_val, is_digit};

verus! {

/// A calendar date. The library handles years 1 through 9999.
#[derive(Clone, Copy, Debug, PartialEq, Eq, Structural)]
pub struct Date {
    pub year: u32,
    pub month: u32,
    pub day: u32,
}

pub open spec fn is_leap_year(y: int) -> bool {
    (y % 4 == 0 && y % 100 != 0) || y % 400 == 0
}

pub open spec fn days_in_month(y: int, m: int) -> int {
    if m == 2 {
        if is_leap_year(y) {
            29
        } else {
            28
        }
    } else if m == 4 || m == 6 || m == 9 || m == 11 {
        30
    } else {
        31
    }
}

impl Date {
    /// A real calendar date within the library's range of years.
    pub open spec fn wf(self) -> bool {
        &&& 1 <= self.year <= 9999
        &&& 1 <= self.month <= 12
        &&& 1 <= self.day <= days_in_month(self.year as int, self.month as int)
    }
}

/// The date one day later.
pub open spec fn spec_next_day(d: Date) -> Date {
    if d.day < days_in_month(d.year as int, d.month as int) {
        Date { year: d.year, month: d.month, day: (d.day + 1) as u32 }
    } else if d.month < 12 {
        Date { year: d.year, month: (d.month + 1) as u32, day: 1 }
    } else {
        Date { year: (d.year + 1) as u32, month: 1, day: 1 }
    }
}

/// What a `MM/DD/YYYY` text names: exactly ten characters, two digits, a
/// slash, two digits, a slash and four digits, naming a real calendar date.
pub open spec fn parse_date(s: Seq<char>) -> Option<Date> {
    if s.len() == 10 && is_digit(s[0]) && is_digit(s[1]) && s[2] == '/' && is_digit(s[3])
        && is_digit(s[4]) && s[5] == '/' && is_digit(s[6]) && is_digit(s[7]) && is_digit(s[8])
        && is_digit(s[9]) {
        let m = digit_val(s[0]) * 10 + digit_val(s[1]);
        let day = digit_val(s[3]) * 10 + digit_val(s[4]);
        let y = ((digit_val(s[6]) * 10 + digit_val(s[7])) * 10 + digit_val(s[8])) * 10 + digit_val(
            s[9],
        );
        let d = Date { year: y as u32, month: m as u32, day: day as u32 };
        if d.wf() {
            Some(d)
        } else {
            None
        }
    } else {
        None
    }
}

fn days_in_month_of(y: u32, m: u32) -> (r: u32)
    requires
        1 <= m <= 12,
    ensures
        r == days_in_month(y as int, m as int),
{
    if m == 2 {
        if (y % 4 == 0 && y % 100 != 0) || y % 400 == 0 {
            29
        } else {
            28
        }
    } else if m == 4 || m == 6 || m == 9 || m == 11 {
        30
    } else {
        31
    }
}

/// Whether the fields name a real calendar date in range.
pub fn date_ok(d: &Date) -> (b: bool)
    ensures
        b == d.wf(),
{
    1 <= d.year && d.year <= 9999 && 1 <= d.month && d.month <= 12 && 1 <= d.day && d.day
        <= days_in_month_of(d.year, d.month)
}

/// Every date but the very last one the library can name has a successor.
pub open spec fn can_advance(d: Date) -> bool {
    d.year < 9999 || d.month < 12 || d.day < 31
}

/// The date one day later.
pub fn next_day(d: &Date) -> (r: Date)
    requires
        d.wf(),
        can_advance(*d),
    ensures
        r == spec_next_day(*d),
        r.wf(),
{
    if d.day < days_in_month_of(d.year, d.month) {
        Date { year: d.year, month: d.month, day: d.day + 1 }
    } else if d.month < 12 {
        Date { year: d.year, month: d.month + 1, day: 1 }
    } else {
        Date { year: d.year + 1, month: 1, day: 1 }
    }
}

/// The date `i` days later.
pub open spec fn nth_day(d: Date, i: int) -> Date
    decreases i,
{
    if i <= 0 {
        d
    } else {
        spec_next_day(nth_day(d, i - 1))
    }
}

/// The seven consecutive dates starting at `today`.
pub open spec fn window7(today: Date) -> Seq<Date> {
    Seq::new(7, |i: int| nth_day(today, i))
}

/// Builds the seven consecutive dates starting at `today`, all of them real
/// calendar dates.
pub fn build_window(today: &Date) -> (r: Vec<Date>)
    requires
        today.wf(),
        today.year <= 9998,
    ensures
        r@ == window7(*today),
        forall|i: int| 0 <= i < 7 ==> #[trigger] r@[i].wf(),
{
    proof {
        reveal_with_fuel(nth_day, 8);
    }
    let d0 = *today;
    let d1 = next_day(&d0);
    let d2 = next_day(&d1);
    let d3 = next_day(&d2);
    let d4 = next_day(&d3);
    let d5 = next_day(&d4);
    let d6 = next_day(&d5);
    let mut r: Vec<Date> = Vec::new();
    r.push(d0);
    r.push(d1);
    r.push(d2);
    r.push(d3);
    r.push(d4);
    r.push(d5);
    r.push(d6);
    proof {
        assert(r@ =~= window7(*today));
    }
    r
}

fn digit_of(c: char) -> (r: Option<u32>)
    ensures
        is_digit(c) ==> r == Some(digit_val(c) as u32),
        !is_digit(c) ==> r is None,
{
    let cv = c as u32;
    if 48 <= cv && cv <= 57 {
        Some(cv - 48)
    } else {
        None
    }
}

/// Reads a date written as `MM/DD/YYYY`, exactly as `parse_date` names it.
pub fn parse_date_text(s: &str) -> (r: Option<Date>)
    ensures
        r == parse_date(s@),
{
    let n = s.unicode_len();
    if n != 10 {
        return None;
    }
    if s.get_char(2) != '/' || s.get_char(5) != '/' {
        return None;
    }
    let v0 = digit_of(s.get_char(0));
    let v1 = digit_of(s.get_char(1));
    let v3 = digit_of(s.get_char(3));
    let v4 = digit_of(s.get_char(4));
    let v6 = digit_of(s.get_char(6));
    let v7 = digit_of(s.get_char(7));
    let v8 = digit_of(s.get_char(8));
    let v9 = digit_of(s.get_char(9));
    match (v0, v1, v3, v4, v6, v7, v8, v9) {
        (Some(a0), Some(a1), Some(a3), Some(a4), Some(a6), Some(a7), Some(a8), Some(a9)) => {
            let m = a0 * 10 + a1;
            let day = a3 * 10 + a4;
            let y = ((a6 * 10 + a7) * 10 + a8) * 10 + a9;
            let d = Date { year: y, month: m, day };
            if date_ok(&d) {
                Some(d)
            } else {
                None
            }
        },
        _ => None,
    }
}

/// Relies on `chrono::Local::now` and the `chrono::Datelike` accessors of
/// the local naive date: `month` lies in 1..=12 and `day` in 1..=31. Which
/// date comes back depends on the clock, so nothing more is promised.
#[verifier::external_body]
fn local_date_parts() -> (r: (i64, u32, u32))
    ensures
        1 <= r.1 <= 12,
        1 <= r.2 <= 31,
{
    let d = chrono::Local::now().naive_local().date();
    (chrono::Datelike::year(&d) as i64, chrono::Datelike::month(&d), chrono::Datelike::day(&d))
}

/// The local calendar date, where it falls inside the library's range of
/// years; everything the clock hands over is checked, not trusted.
pub fn today_date() -> (r: Option<Date>)
    ensures
        r matches Some(d) ==> d.wf() && d.year <= 9998,
{
    let (y, m, day) = local_date_parts();
    if 1 <= y && y <= 9998 {
        let d = Date { year: y as u32, month: m, day };
        if date_ok(&d) {
            return Some(d);
        }
    }
    None
}

} // verus!
