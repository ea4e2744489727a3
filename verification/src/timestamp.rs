//! The service's timestamp encoding: `YYYY-MM-DD HH:MM:SS`, UTC, no
//! offset suffix. Decoding accepts exactly that shape on valid dates;
//! formatting is its inverse. A conversion to seconds since the Unix
//! epoch gives the value an absolute meaning.

use vstd::prelude::*;

use crate::text::{dig_char, str_chars, string_from_chars};

verus! {

/// A calendar timestamp in UTC, field for field as on the wire.
#[derive(Clone, Copy, PartialEq, Eq, Structural, Debug)]
pub struct Timestamp {
    pub year: u16,
    pub month: u8,
    pub day: u8,
    pub hour: u8,
    pub minute: u8,
    pub second: u8,
}

pub open spec fn is_leap_year(y: int) -> bool {
    y % 4 == 0 && (y % 100 != 0 || y % 400 == 0)
}

pub open spec fn days_in_month(y: int, m: int) -> int {
    if m == 2 {
        if is_leap_year(y) {
            29
        } else {
            28
        }
    } else if m == 4 || m == 6 || m == 9 || m == 11 {
        30
    } else {
        31
    }
}

impl Timestamp {
    /// A well-formed timestamp: a date that exists in the proleptic
    /// Gregorian calendar, four-digit year, and a time of day.
    pub open spec fn wf(self) -> bool {
        &&& self.year <= 9999
        &&& 1 <= self.month <= 12
        &&& 1 <= self.day <= days_in_month(self.year as int, self.month as int)
        &&& self.hour <= 23
        &&& self.minute <= 59
        &&& self.second <= 59
    }
}

pub open spec fn is_digit(c: char) -> bool {
    48 <= c as u32 <= 57
}

pub open spec fn digit(c: char) -> int {
    c as u32 - 48
}

/// The fixed wire shape: 19 characters, digits and separators in place.
pub open spec fn ts_text_shape(s: Seq<char>) -> bool {
    &&& s.len() == 19
    &&& is_digit(s[0]) && is_digit(s[1]) && is_digit(s[2]) && is_digit(s[3])
    &&& s[4] == '-'
    &&& is_digit(s[5]) && is_digit(s[6])
    &&& s[7] == '-'
    &&& is_digit(s[8]) && is_digit(s[9])
    &&& s[10] == ' '
    &&& is_digit(s[11]) && is_digit(s[12])
    &&& s[13] == ':'
    &&& is_digit(s[14]) && is_digit(s[15])
    &&& s[16] == ':'
    &&& is_digit(s[17]) && is_digit(s[18])
}

/// The timestamp spelled by a text of the wire shape.
pub open spec fn ts_of_text(s: Seq<char>) -> Timestamp {
    Timestamp {
        year: (1000 * digit(s[0]) + 100 * digit(s[1]) + 10 * digit(s[2]) + digit(s[3])) as u16,
        month: (10 * digit(s[5]) + digit(s[6])) as u8,
        day: (10 * digit(s[8]) + digit(s[9])) as u8,
        hour: (10 * digit(s[11]) + digit(s[12])) as u8,
        minute: (10 * digit(s[14]) + digit(s[15])) as u8,
        second: (10 * digit(s[17]) + digit(s[18])) as u8,
    }
}

/// What decoding a wire value yields: the spelled timestamp, provided
/// the text has the exact shape and names a real date and time.
pub open spec fn parse_ts(s: Seq<char>) -> Option<Timestamp> {
    if ts_text_shape(s) && ts_of_text(s).wf() {
        Some(ts_of_text(s))
    } else {
        None
    }
}

/// The canonical text of a timestamp, the exact inverse of decoding.
pub open spec fn ts_text(t: Timestamp) -> Seq<char> {
    seq![
        dig_char(t.year as int / 1000),
        dig_char((t.year as int / 100) % 10),
        dig_char((t.year as int / 10) % 10),
        dig_char(t.year as int % 10),
        '-',
        dig_char(t.month as int / 10),
        dig_char(t.month as int % 10),
        '-',
        dig_char(t.day as int / 10),
        dig_char(t.day as int % 10),
        ' ',
        dig_char(t.hour as int / 10),
        dig_char(t.hour as int % 10),
        ':',
        dig_char(t.minute as int / 10),
        dig_char(t.minute as int % 10),
        ':',
        dig_char(t.second as int / 10),
        dig_char(t.second as int % 10),
    ]
}

pub open spec fn days_in_year(y: int) -> int {
    if is_leap_year(y) {
        366
    } else {
        365
    }
}

/// Days from 1970-01-01 to the first day of year `y`.
pub open spec fn days_before_year(y: int) -> int
    decreases y - 1970,
{
    if y <= 1970 {
        0
    } else {
        days_before_year(y - 1) + days_in_year(y - 1)
    }
}

/// Days from the first of January to the first of month `m` of year `y`.
pub open spec fn days_before_month(y: int, m: int) -> int
    decreases m,
{
    if m <= 1 {
        0
    } else {
        days_before_month(y, m - 1) + days_in_month(y, m - 1)
    }
}

/// Seconds since 1970-01-01T00:00:00Z.
pub open spec fn unix_seconds(t: Timestamp) -> int {
    (days_before_year(t.year as int) + days_before_month(t.year as int, t.month as int)
        + t.day as int - 1) * 86400 + t.hour as int * 3600 + t.minute as int * 60 + t.second as int
}

fn exec_is_leap_year(y: u16) -> (r: bool)
    ensures
        r == is_leap_year(y as int),
{
    y % 4 == 0 && (y % 100 != 0 || y % 400 == 0)
}

fn exec_days_in_month(y: u16, m: u8) -> (r: u8)
    ensures
        r == days_in_month(y as int, m as int),
{
    if m == 2 {
        if exec_is_leap_year(y) {
            29
        } else {
            28
        }
    } else if m == 4 || m == 6 || m == 9 || m == 11 {
        30
    } else {
        31
    }
}

/// The numeric value of the digit at `i`, if it is one.
fn digit_at(v: &Vec<char>, i: usize) -> (r: Option<u16>)
    requires
        i < v@.len(),
    ensures
        r is Some <==> is_digit(v@[i as int]),
        r matches Some(d) ==> d == digit(v@[i as int]) && d <= 9,
{
    let u = v[i] as u32;
    if 48 <= u && u <= 57 {
        Some((u - 48) as u16)
    } else {
        None
    }
}

/// The value of the two digits at `i`, if both are digits.
fn num2_at(v: &Vec<char>, i: usize) -> (r: Option<u16>)
    requires
        i + 1 < v@.len(),
    ensures
        r is Some <==> is_digit(v@[i as int]) && is_digit(v@[i as int + 1]),
        r matches Some(d) ==> d == 10 * digit(v@[i as int]) + digit(v@[i as int + 1]) && d <= 99,
{
    // binding the length pins it to a machine word, so `i + 1` is known to fit
    let _n = v.len();
    match (digit_at(v, i), digit_at(v, i + 1)) {
        (Some(a), Some(b)) => Some(10 * a + b),
        _ => None,
    }
}

impl Timestamp {
    /// Tests well-formedness, so unverified callers can establish it
    /// before using the formatting operations.
    pub fn check_wf(&self) -> (r: bool)
        ensures
            r == self.wf(),
    {
        self.year <= 9999 && 1 <= self.month && self.month <= 12 && 1 <= self.day && self.day
            <= exec_days_in_month(self.year, self.month) && self.hour <= 23 && self.minute <= 59
            && self.second <= 59
    }

    /// Decodes the wire format, rejecting anything but the exact
    /// `YYYY-MM-DD HH:MM:SS` shape on a real date and time.
    pub fn parse(s: &str) -> (r: Option<Timestamp>)
        ensures
            r == parse_ts(s@),
    {
        let v = str_chars(s);
        if v.len() != 19 {
            return None;
        }
        if !(v[4] == '-' && v[7] == '-' && v[10] == ' ' && v[13] == ':' && v[16] == ':') {
            return None;
        }
        let y_hi = num2_at(&v, 0);
        let y_lo = num2_at(&v, 2);
        let mo = num2_at(&v, 5);
        let d = num2_at(&v, 8);
        let h = num2_at(&v, 11);
        let mi = num2_at(&v, 14);
        let se = num2_at(&v, 17);
        match (y_hi, y_lo, mo, d, h, mi, se) {
            (Some(y_hi), Some(y_lo), Some(mo), Some(d), Some(h), Some(mi), Some(se)) => {
                let t = Timestamp {
                    year: 100 * y_hi + y_lo,
                    month: mo as u8,
                    day: d as u8,
                    hour: h as u8,
                    minute: mi as u8,
                    second: se as u8,
                };
                proof {
                    assert(ts_text_shape(s@));
                    assert(t == ts_of_text(s@));
                }
                if 1 <= t.month && t.month <= 12 && 1 <= t.day && t.day <= exec_days_in_month(
                    t.year,
                    t.month,
                ) && t.hour <= 23 && t.minute <= 59 && t.second <= 59 {
                    Some(t)
                } else {
                    None
                }
            },
            _ => None,
        }
    }

    /// Encodes this timestamp back to the canonical 19-character text.
    pub fn format(&self) -> (r: String)
        requires
            self.wf(),
        ensures
            r@ == ts_text(*self),
    {
        let mut v: Vec<char> = Vec::new();
        v.push((48 + (self.year / 1000) as u8) as char);
        v.push((48 + ((self.year / 100) % 10) as u8) as char);
        v.push((48 + ((self.year / 10) % 10) as u8) as char);
        v.push((48 + (self.year % 10) as u8) as char);
        v.push('-');
        v.push((48 + self.month / 10) as char);
        v.push((48 + self.month % 10) as char);
        v.push('-');
        v.push((48 + self.day / 10) as char);
        v.push((48 + self.day % 10) as char);
        v.push(' ');
        v.push((48 + self.hour / 10) as char);
        v.push((48 + self.hour % 10) as char);
        v.push(':');
        v.push((48 + self.minute / 10) as char);
        v.push((48 + self.minute % 10) as char);
        v.push(':');
        v.push((48 + self.second / 10) as char);
        v.push((48 + self.second % 10) as char);
        proof {
            assert(v@ =~= ts_text(*self));
        }
        string_from_chars(&v)
    }

    /// Seconds since the Unix epoch, for timestamps at or after it.
    pub fn to_unix(&self) -> (r: u64)
        requires
            self.wf(),
            self.year >= 1970,
        ensures
            r == unix_seconds(*self),
    {
        let mut days: u64 = 0;
        let mut y: u16 = 1970;
        while y < self.year
            invariant
                1970 <= y <= self.year <= 9999,
                days == days_before_year(y as int),
                days <= 366 * (y - 1970),
            decreases self.year - y,
        {
            days = days + if exec_is_leap_year(y) {
                366
            } else {
                365
            };
            y = y + 1;
        }
        let mut mdays: u64 = 0;
        let mut m: u8 = 1;
        while m < self.month
            invariant
                1 <= m <= self.month <= 12,
                mdays == days_before_month(self.year as int, m as int),
                mdays <= 31 * (m - 1),
            decreases self.month - m,
        {
            mdays = mdays + exec_days_in_month(self.year, m) as u64;
            m = m + 1;
        }
        let total_days: u64 = days + mdays + (self.day as u64 - 1);
        total_days * 86400 + self.hour as u64 * 3600 + self.minute as u64 * 60 + self.second as u64
    }
}

proof fn lemma_two_digits(x: int)
    requires
        0 <= x <= 99,
    ensures
        0 <= x / 10 <= 9,
        0 <= x % 10 <= 9,
        10 * (x / 10) + x % 10 == x,
{
}

proof fn lemma_four_digits(y: int)
    requires
        0 <= y <= 9999,
    ensures
        0 <= y / 1000 <= 9,
        0 <= (y / 100) % 10 <= 9,
        0 <= (y / 10) % 10 <= 9,
        0 <= y % 10 <= 9,
        1000 * (y / 1000) + 100 * ((y / 100) % 10) + 10 * ((y / 10) % 10) + y % 10 == y,
{
    assert(1000 * (y / 1000) + 100 * ((y / 100) % 10) + 10 * ((y / 10) % 10) + y % 10 == y) by (nonlinear_arith)
        requires
            0 <= y <= 9999,
    ;
}

/// Round trip: formatting a well-formed timestamp and decoding the text
/// yields the same timestamp back.
#[verifier::rlimit(50)]
pub proof fn lemma_ts_round_trip(t: Timestamp)
    requires
        t.wf(),
    ensures
        parse_ts(ts_text(t)) == Some(t),
{
    let s = ts_text(t);
    lemma_four_digits(t.year as int);
    lemma_two_digits(t.month as int);
    lemma_two_digits(t.day as int);
    lemma_two_digits(t.hour as int);
    lemma_two_digits(t.minute as int);
    lemma_two_digits(t.second as int);
    assert(ts_text_shape(s));
    assert(ts_of_text(s).year == t.year);
    assert(ts_of_text(s).month == t.month);
    assert(ts_of_text(s).day == t.day);
    assert(ts_of_text(s).hour == t.hour);
    assert(ts_of_text(s).minute == t.minute);
    assert(ts_of_text(s).second == t.second);
    assert(ts_of_text(s) == t);
}

} // verus!
