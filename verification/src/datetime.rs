use vstd::prelude::*;
use crate::amount::{digit_value, is_digit_char};

verus! {

/// A calendar date.
#[derive(Clone, Copy, Debug, PartialEq, Eq, Structural)]
pub struct Date {
    pub year: u32,
    pub month: u32,
    pub day: u32,
}

/// A timestamp with one-second resolution, as carried by an invoice's
/// issue field.
#[derive(Clone, Copy, Debug, PartialEq, Eq, Structural)]
pub struct DateTime {
    pub year: u32,
    pub month: u32,
    pub day: u32,
    pub hour: u32,
    pub minute: u32,
    pub second: u32,
}

pub open spec fn spec_is_leap(y: int) -> bool {
    y % 4 == 0 && (y % 100 != 0 || y % 400 == 0)
}

pub open spec fn spec_days_in_month(y: int, m: int) -> int {
    if m == 2 {
        if spec_is_leap(y) {
            29
        } else {
            28
        }
    } else if m == 4 || m == 6 || m == 9 || m == 11 {
        30
    } else {
        31
    }
}

pub fn is_leap(y: u32) -> (r: bool)
    ensures
        r == spec_is_leap(y as int),
{
    y % 4 == 0 && (y % 100 != 0 || y % 400 == 0)
}

pub fn days_in_month(y: u32, m: u32) -> (r: u32)
    ensures
        r == spec_days_in_month(y as int, m as int),
{
    if m == 2 {
        if is_leap(y) {
            29
        } else {
            28
        }
    } else if m == 4 || m == 6 || m == 9 || m == 11 {
        30
    } else {
        31
    }
}

impl Date {
    /// A real calendar date with a four-digit year.
    pub open spec fn wf(self) -> bool {
        &&& self.year <= 9999
        &&& 1 <= self.month <= 12
        &&& 1 <= self.day <= spec_days_in_month(self.year as int, self.month as int)
    }

    /// Runtime check of `wf`, for callers outside verified code.
    pub fn check_wf(&self) -> (r: bool)
        ensures
            r == self.wf(),
    {
        self.year <= 9999 && 1 <= self.month && self.month <= 12 && 1 <= self.day && self.day
            <= days_in_month(self.year, self.month)
    }

    /// Midnight at the start of this date.
    pub fn start_of_day(&self) -> (r: DateTime)
        ensures
            r == (DateTime {
                year: self.year,
                month: self.month,
                day: self.day,
                hour: 0,
                minute: 0,
                second: 0,
            }),
            self.wf() ==> r.wf(),
    {
        DateTime { year: self.year, month: self.month, day: self.day, hour: 0, minute: 0, second: 0 }
    }
}

impl DateTime {
    /// A real calendar timestamp with a four-digit year.
    pub open spec fn wf(self) -> bool {
        &&& self.year <= 9999
        &&& 1 <= self.month <= 12
        &&& 1 <= self.day <= spec_days_in_month(self.year as int, self.month as int)
        &&& self.hour <= 23
        &&& self.minute <= 59
        &&& self.second <= 59
    }

    /// Runtime check of `wf`, for callers outside verified code.
    pub fn check_wf(&self) -> (r: bool)
        ensures
            r == self.wf(),
    {
        self.year <= 9999 && 1 <= self.month && self.month <= 12 && 1 <= self.day && self.day
            <= days_in_month(self.year, self.month) && self.hour <= 23 && self.minute <= 59
            && self.second <= 59
    }

    /// A strictly monotone encoding of the timestamp: two well-formed
    /// timestamps compare the same way their encodings do.
    pub open spec fn key(self) -> int {
        ((((self.year as int * 12 + (self.month as int - 1)) * 31 + (self.day as int - 1)) * 24
            + self.hour as int) * 60 + self.minute as int) * 60 + self.second as int
    }

    /// The encoding as an executable value.
    pub fn key_val(&self) -> (r: u64)
        requires
            self.wf(),
        ensures
            r == self.key(),
    {
        let y = self.year as u64;
        let mo = self.month as u64;
        let d = self.day as u64;
        ((((y * 12 + (mo - 1)) * 31 + (d - 1)) * 24 + self.hour as u64) * 60 + self.minute as u64)
            * 60 + self.second as u64
    }

    /// Whether `self` is at or before `other`.
    pub fn le(&self, other: &DateTime) -> (r: bool)
        requires
            self.wf(),
            other.wf(),
        ensures
            r == (self.key() <= other.key()),
    {
        self.key_val() <= other.key_val()
    }
}

/// The fixed textual timestamp layout of an invoice's issue field:
/// four-digit year, month, day, then time, as in `2024-04-05T18:09:06`.
pub open spec fn datetime_syntax_ok(s: Seq<char>) -> bool {
    &&& s.len() == 19
    &&& is_digit_char(s[0]) && is_digit_char(s[1]) && is_digit_char(s[2]) && is_digit_char(s[3])
    &&& s[4] == '-'
    &&& is_digit_char(s[5]) && is_digit_char(s[6])
    &&& s[7] == '-'
    &&& is_digit_char(s[8]) && is_digit_char(s[9])
    &&& s[10] == 'T'
    &&& is_digit_char(s[11]) && is_digit_char(s[12])
    &&& s[13] == ':'
    &&& is_digit_char(s[14]) && is_digit_char(s[15])
    &&& s[16] == ':'
    &&& is_digit_char(s[17]) && is_digit_char(s[18])
}

pub open spec fn two_digits_at(s: Seq<char>, i: int) -> int {
    digit_value(s[i]) * 10 + digit_value(s[i + 1])
}

pub open spec fn datetime_of(s: Seq<char>) -> DateTime {
    DateTime {
        year: (digit_value(s[0]) * 1000 + digit_value(s[1]) * 100 + digit_value(s[2]) * 10
            + digit_value(s[3])) as u32,
        month: two_digits_at(s, 5) as u32,
        day: two_digits_at(s, 8) as u32,
        hour: two_digits_at(s, 11) as u32,
        minute: two_digits_at(s, 14) as u32,
        second: two_digits_at(s, 17) as u32,
    }
}

/// What parsing an issue timestamp yields: the denoted timestamp when
/// the text has the fixed layout and names a real calendar moment, and
/// nothing otherwise.
pub open spec fn spec_parse_datetime(s: Seq<char>) -> Option<DateTime> {
    if datetime_syntax_ok(s) && datetime_of(s).wf() {
        Some(datetime_of(s))
    } else {
        None
    }
}

fn digit_at(s: &str, i: usize) -> (r: Option<u32>)
    requires
        i < s@.len(),
    ensures
        match r {
            Some(v) => is_digit_char(s@[i as int]) && v == digit_value(s@[i as int]) && v <= 9,
            None => !is_digit_char(s@[i as int]),
        },
{
    let c = s.get_char(i);
    if c >= '0' && c <= '9' {
        Some((c as u32) - ('0' as u32))
    } else {
        None
    }
}

fn sep_at(s: &str, i: usize, sep: char) -> (r: bool)
    requires
        i < s@.len(),
    ensures
        r == (s@[i as int] == sep),
{
    s.get_char(i) == sep
}

/// Parse an issue timestamp, exactly as `spec_parse_datetime` states.
pub fn parse_datetime(s: &str) -> (r: Option<DateTime>)
    ensures
        r == spec_parse_datetime(s@),
{
    if s.unicode_len() != 19 {
        return None;
    }
    if !(sep_at(s, 4, '-') && sep_at(s, 7, '-') && sep_at(s, 10, 'T') && sep_at(s, 13, ':')
        && sep_at(s, 16, ':')) {
        return None;
    }
    let d0 = digit_at(s, 0);
    let d1 = digit_at(s, 1);
    let d2 = digit_at(s, 2);
    let d3 = digit_at(s, 3);
    let mo = pair_at(s, 5);
    let da = pair_at(s, 8);
    let ho = pair_at(s, 11);
    let mi = pair_at(s, 14);
    let se = pair_at(s, 17);
    match (d0, d1, d2, d3, mo, da, ho, mi, se) {
        (
            Some(y0),
            Some(y1),
            Some(y2),
            Some(y3),
            Some(month),
            Some(day),
            Some(hour),
            Some(minute),
            Some(second),
        ) => {
            let dt = DateTime {
                year: y0 * 1000 + y1 * 100 + y2 * 10 + y3,
                month,
                day,
                hour,
                minute,
                second,
            };
            if dt.check_wf() {
                Some(dt)
            } else {
                None
            }
        },
        _ => None,
    }
}

fn pair_at(s: &str, i: usize) -> (r: Option<u32>)
    requires
        i < 100,
        i + 1 < s@.len(),
    ensures
        match r {
            Some(v) => is_digit_char(s@[i as int]) && is_digit_char(s@[i + 1]) && v
                == two_digits_at(s@, i as int) && v <= 99,
            None => !(is_digit_char(s@[i as int]) && is_digit_char(s@[i + 1])),
        },
{
    match (digit_at(s, i), digit_at(s, i + 1)) {
        (Some(a), Some(b)) => Some(a * 10 + b),
        _ => None,
    }
}

} // verus!
