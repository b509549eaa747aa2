//! Calendar dates and date-times as plain values.
//!
//! The status file stores the moment a session was opened as
//! `day/month/year--hour:minute:second` (for example `14/03/2024--10:28:01`)
//! and the history file stores dates as `day/month/year`.  This module
//! models both as structs of plain integers with a proleptic-Gregorian
//! validity invariant, and verifies the fixed-width rendering and parsing
//! of those two layouts.  Only elapsed-minute arithmetic between two
//! date-times is delegated to an outside calendar library.

use vstd::prelude::*;
use vstd::arithmetic::div_mod::{lemma_fundamental_div_mod, lemma_div_denominator};
use crate::digits::{
    append_four_digits, append_two_digits, digit_of_char, digit_val, four_digits, is_digit,
    two_digits,
};
use crate::words::no_space_chars;

verus! {

/// A calendar date.  Valid values satisfy [`Date::wf`].
#[derive(Clone, Copy, Debug, PartialEq, Eq, Structural)]
pub struct Date {
    pub year: u32,
    pub month: u32,
    pub day: u32,
}

/// A calendar date with a time of day.  Valid values satisfy
/// [`DateTime::wf`].
#[derive(Clone, Copy, Debug, PartialEq, Eq, Structural)]
pub struct DateTime {
    pub date: Date,
    pub hour: u32,
    pub minute: u32,
    pub second: u32,
}

/// Proleptic-Gregorian leap-year rule.
pub open spec fn is_leap_year(y: int) -> bool {
    (y % 4 == 0 && y % 100 != 0) || y % 400 == 0
}

/// Number of days in a month of the proleptic-Gregorian calendar.
pub open spec fn days_in_month(y: int, m: int) -> int
    recommends
        1 <= m <= 12,
{
    if m == 2 {
        if is_leap_year(y) {
            29
        } else {
            28
        }
    } else if m == 4 || m == 6 || m == 9 || m == 11 {
        30
    } else {
        31
    }
}

impl Date {
    /// A real calendar date whose year fits the four-digit rendering.
    pub open spec fn wf(self) -> bool {
        &&& self.year <= 9999
        &&& 1 <= self.month <= 12
        &&& 1 <= self.day <= days_in_month(self.year as int, self.month as int)
    }

    /// The date `year`-`month`-`day` if it is a valid calendar date.
    pub fn new(year: u32, month: u32, day: u32) -> (r: Option<Date>)
        ensures
            match r {
                Some(d) => d == (Date { year, month, day }) && d.wf(),
                None => !(Date { year, month, day }).wf(),
            },
    {
        if is_valid_date(year, month, day) {
            Some(Date { year, month, day })
        } else {
            None
        }
    }
}

impl DateTime {
    /// A valid date with a time of day below twenty-four hours.
    pub open spec fn wf(self) -> bool {
        &&& self.date.wf()
        &&& self.hour < 24
        &&& self.minute < 60
        &&& self.second < 60
    }

    /// The given moment if date and time of day are both valid.
    pub fn new(date: Date, hour: u32, minute: u32, second: u32) -> (r: Option<DateTime>)
        ensures
            match r {
                Some(dt) => dt == (DateTime { date, hour, minute, second }) && dt.wf(),
                None => !(DateTime { date, hour, minute, second }).wf(),
            },
    {
        if is_valid_date(date.year, date.month, date.day) && hour < 24 && minute < 60 && second
            < 60 {
            Some(DateTime { date, hour, minute, second })
        } else {
            None
        }
    }
}

impl View for DateTime {
    type V = (int, int, int, int, int, int);

    /// Year, month, day, hour, minute and second as plain integers.
    open spec fn view(&self) -> (int, int, int, int, int, int) {
        (
            self.date.year as int,
            self.date.month as int,
            self.date.day as int,
            self.hour as int,
            self.minute as int,
            self.second as int,
        )
    }
}

/// Number of days in the given month, as executable code.
pub fn days_in_month_of(year: u32, month: u32) -> (r: u32)
    requires
        1 <= month <= 12,
    ensures
        r == days_in_month(year as int, month as int),
{
    if month == 2 {
        if (year % 4 == 0 && year % 100 != 0) || year % 400 == 0 {
            29
        } else {
            28
        }
    } else if month == 4 || month == 6 || month == 9 || month == 11 {
        30
    } else {
        31
    }
}

/// Whether `year`-`month`-`day` is a valid calendar date with a
/// four-digit year.
pub fn is_valid_date(year: u32, month: u32, day: u32) -> (r: bool)
    ensures
        r == (Date { year, month, day }).wf(),
{
    year <= 9999 && 1 <= month && month <= 12 && 1 <= day && day <= days_in_month_of(year, month)
}

/// The ten-character rendering `day/month/year` of a date.
pub open spec fn date_chars(d: Date) -> Seq<char> {
    two_digits(d.day as int) + seq!['/'] + two_digits(d.month as int) + seq!['/'] + four_digits(
        d.year as int,
    )
}

/// The twenty-character rendering `day/month/year--hour:minute:second`.
pub open spec fn datetime_chars(dt: DateTime) -> Seq<char> {
    date_chars(dt.date) + seq!['-', '-'] + two_digits(dt.hour as int) + seq![':'] + two_digits(
        dt.minute as int,
    ) + seq![':'] + two_digits(dt.second as int)
}

/// `s` is laid out as `day/month/year`: digits and slashes in the right
/// places.
pub open spec fn date_shape(s: Seq<char>) -> bool {
    &&& s.len() == 10
    &&& is_digit(s[0])
    &&& is_digit(s[1])
    &&& s[2] == '/'
    &&& is_digit(s[3])
    &&& is_digit(s[4])
    &&& s[5] == '/'
    &&& is_digit(s[6])
    &&& is_digit(s[7])
    &&& is_digit(s[8])
    &&& is_digit(s[9])
}

/// The date spelled by a `day/month/year` layout.
pub open spec fn date_of_chars(s: Seq<char>) -> Date
    recommends
        date_shape(s),
{
    Date {
        year: (1000 * digit_val(s[6]) + 100 * digit_val(s[7]) + 10 * digit_val(s[8]) + digit_val(
            s[9],
        )) as u32,
        month: (10 * digit_val(s[3]) + digit_val(s[4])) as u32,
        day: (10 * digit_val(s[0]) + digit_val(s[1])) as u32,
    }
}

/// The date encoded by `s`, if `s` is laid out as `day/month/year` and
/// spells a valid calendar date.
pub open spec fn parse_date_chars(s: Seq<char>) -> Option<Date> {
    if date_shape(s) && date_of_chars(s).wf() {
        Some(date_of_chars(s))
    } else {
        None
    }
}

/// `s` is laid out as `day/month/year--hour:minute:second`.
pub open spec fn datetime_shape(s: Seq<char>) -> bool {
    &&& s.len() == 20
    &&& date_shape(s.subrange(0, 10))
    &&& s[10] == '-'
    &&& s[11] == '-'
    &&& is_digit(s[12])
    &&& is_digit(s[13])
    &&& s[14] == ':'
    &&& is_digit(s[15])
    &&& is_digit(s[16])
    &&& s[17] == ':'
    &&& is_digit(s[18])
    &&& is_digit(s[19])
}

/// The moment spelled by a `day/month/year--hour:minute:second` layout.
pub open spec fn datetime_of_chars(s: Seq<char>) -> DateTime
    recommends
        datetime_shape(s),
{
    DateTime {
        date: date_of_chars(s.subrange(0, 10)),
        hour: (10 * digit_val(s[12]) + digit_val(s[13])) as u32,
        minute: (10 * digit_val(s[15]) + digit_val(s[16])) as u32,
        second: (10 * digit_val(s[18]) + digit_val(s[19])) as u32,
    }
}

/// The moment encoded by `s`, if `s` has the date-time layout and spells a
/// valid moment.
pub open spec fn parse_datetime_chars(s: Seq<char>) -> Option<DateTime> {
    if datetime_shape(s) && datetime_of_chars(s).wf() {
        Some(datetime_of_chars(s))
    } else {
        None
    }
}

/// Renders a date as `day/month/year`.
pub fn date_to_string(d: Date) -> (s: String)
    requires
        d.wf(),
    ensures
        s@ == date_chars(d),
{
    let mut s = String::new();
    append_two_digits(&mut s, d.day);
    s.append("/");
    append_two_digits(&mut s, d.month);
    s.append("/");
    append_four_digits(&mut s, d.year);
    proof {
        reveal_strlit("/");
        assert(s@ =~= date_chars(d));
    }
    s
}

/// Renders a moment as `day/month/year--hour:minute:second`.
pub fn datetime_to_string(dt: DateTime) -> (s: String)
    requires
        dt.wf(),
    ensures
        s@ == datetime_chars(dt),
{
    let mut s = date_to_string(dt.date);
    s.append("--");
    append_two_digits(&mut s, dt.hour);
    s.append(":");
    append_two_digits(&mut s, dt.minute);
    s.append(":");
    append_two_digits(&mut s, dt.second);
    proof {
        reveal_strlit("--");
        reveal_strlit(":");
        assert(s@ =~= datetime_chars(dt));
    }
    s
}

/// Parses `day/month/year`, rejecting anything but a valid calendar date
/// in that exact layout.
pub fn date_from_string(s: &str) -> (r: Option<Date>)
    ensures
        r == parse_date_chars(s@),
{
    let n = s.unicode_len();
    if n != 10 {
        return None;
    }
    let d0 = match digit_of_char(s.get_char(0)) {
        Some(v) => v,
        None => return None,
    };
    let d1 = match digit_of_char(s.get_char(1)) {
        Some(v) => v,
        None => return None,
    };
    if s.get_char(2) != '/' {
        return None;
    }
    let m0 = match digit_of_char(s.get_char(3)) {
        Some(v) => v,
        None => return None,
    };
    let m1 = match digit_of_char(s.get_char(4)) {
        Some(v) => v,
        None => return None,
    };
    if s.get_char(5) != '/' {
        return None;
    }
    let y0 = match digit_of_char(s.get_char(6)) {
        Some(v) => v,
        None => return None,
    };
    let y1 = match digit_of_char(s.get_char(7)) {
        Some(v) => v,
        None => return None,
    };
    let y2 = match digit_of_char(s.get_char(8)) {
        Some(v) => v,
        None => return None,
    };
    let y3 = match digit_of_char(s.get_char(9)) {
        Some(v) => v,
        None => return None,
    };
    let day: u32 = 10 * (d0 as u32) + (d1 as u32);
    let month: u32 = 10 * (m0 as u32) + (m1 as u32);
    let year: u32 = 1000 * (y0 as u32) + 100 * (y1 as u32) + 10 * (y2 as u32) + (y3 as u32);
    if is_valid_date(year, month, day) {
        Some(Date { year, month, day })
    } else {
        None
    }
}

/// Parses `day/month/year--hour:minute:second`, rejecting anything but a
/// valid moment in that exact layout.
pub fn datetime_from_string(s: &str) -> (r: Option<DateTime>)
    ensures
        r == parse_datetime_chars(s@),
{
    let n = s.unicode_len();
    if n != 20 {
        return None;
    }
    let date = match date_from_string(s.substring_char(0, 10)) {
        Some(d) => d,
        None => return None,
    };
    if s.get_char(10) != '-' || s.get_char(11) != '-' {
        return None;
    }
    let h0 = match digit_of_char(s.get_char(12)) {
        Some(v) => v,
        None => return None,
    };
    let h1 = match digit_of_char(s.get_char(13)) {
        Some(v) => v,
        None => return None,
    };
    if s.get_char(14) != ':' {
        return None;
    }
    let mi0 = match digit_of_char(s.get_char(15)) {
        Some(v) => v,
        None => return None,
    };
    let mi1 = match digit_of_char(s.get_char(16)) {
        Some(v) => v,
        None => return None,
    };
    if s.get_char(17) != ':' {
        return None;
    }
    let s0 = match digit_of_char(s.get_char(18)) {
        Some(v) => v,
        None => return None,
    };
    let s1 = match digit_of_char(s.get_char(19)) {
        Some(v) => v,
        None => return None,
    };
    let hour: u32 = 10 * (h0 as u32) + (h1 as u32);
    let minute: u32 = 10 * (mi0 as u32) + (mi1 as u32);
    let second: u32 = 10 * (s0 as u32) + (s1 as u32);
    if hour < 24 && minute < 60 && second < 60 {
        Some(DateTime { date, hour, minute, second })
    } else {
        None
    }
}

/// Recomposing a value below ten thousand from its four decimal digits.
proof fn lemma_four_digit_recompose(y: int)
    requires
        0 <= y < 10000,
    ensures
        1000 * (y / 1000) + 100 * (y / 100 % 10) + 10 * (y / 10 % 10) + y % 10 == y,
{
    lemma_fundamental_div_mod(y, 10);
    lemma_fundamental_div_mod(y / 10, 10);
    lemma_fundamental_div_mod(y / 100, 10);
    lemma_div_denominator(y, 10, 10);
    lemma_div_denominator(y, 100, 10);
}

/// Recomposing a value below one hundred from its two decimal digits.
proof fn lemma_two_digit_recompose(n: int)
    requires
        0 <= n < 100,
    ensures
        10 * (n / 10) + n % 10 == n,
{
    lemma_fundamental_div_mod(n, 10);
}

/// The `day/month/year` rendering of a valid date parses back to that
/// date, and contains no space.
pub proof fn lemma_date_round_trip(d: Date)
    requires
        d.wf(),
    ensures
        date_chars(d).len() == 10,
        parse_date_chars(date_chars(d)) == Some(d),
        no_space_chars(date_chars(d)),
{
    let s = date_chars(d);
    crate::digits::lemma_digit_char(d.day as int / 10);
    crate::digits::lemma_digit_char(d.day as int % 10);
    crate::digits::lemma_digit_char(d.month as int / 10);
    crate::digits::lemma_digit_char(d.month as int % 10);
    crate::digits::lemma_digit_char(d.year as int / 1000);
    crate::digits::lemma_digit_char(d.year as int / 100 % 10);
    crate::digits::lemma_digit_char(d.year as int / 10 % 10);
    crate::digits::lemma_digit_char(d.year as int % 10);
    assert(s =~= seq![
        crate::digits::digit_char(d.day as int / 10),
        crate::digits::digit_char(d.day as int % 10),
        '/',
        crate::digits::digit_char(d.month as int / 10),
        crate::digits::digit_char(d.month as int % 10),
        '/',
        crate::digits::digit_char(d.year as int / 1000),
        crate::digits::digit_char(d.year as int / 100 % 10),
        crate::digits::digit_char(d.year as int / 10 % 10),
        crate::digits::digit_char(d.year as int % 10),
    ]);
    lemma_two_digit_recompose(d.day as int);
    lemma_two_digit_recompose(d.month as int);
    lemma_four_digit_recompose(d.year as int);
    assert(date_of_chars(s) == d);
}

/// The full rendering of a valid moment parses back to that moment, and
/// contains no space.
pub proof fn lemma_datetime_round_trip(dt: DateTime)
    requires
        dt.wf(),
    ensures
        datetime_chars(dt).len() == 20,
        parse_datetime_chars(datetime_chars(dt)) == Some(dt),
        no_space_chars(datetime_chars(dt)),
{
    let s = datetime_chars(dt);
    lemma_date_round_trip(dt.date);
    crate::digits::lemma_digit_char(dt.hour as int / 10);
    crate::digits::lemma_digit_char(dt.hour as int % 10);
    crate::digits::lemma_digit_char(dt.minute as int / 10);
    crate::digits::lemma_digit_char(dt.minute as int % 10);
    crate::digits::lemma_digit_char(dt.second as int / 10);
    crate::digits::lemma_digit_char(dt.second as int % 10);
    assert(s.subrange(0, 10) =~= date_chars(dt.date));
    assert(s =~= date_chars(dt.date) + seq![
        '-',
        '-',
        crate::digits::digit_char(dt.hour as int / 10),
        crate::digits::digit_char(dt.hour as int % 10),
        ':',
        crate::digits::digit_char(dt.minute as int / 10),
        crate::digits::digit_char(dt.minute as int % 10),
        ':',
        crate::digits::digit_char(dt.second as int / 10),
        crate::digits::digit_char(dt.second as int % 10),
    ]);
    lemma_two_digit_recompose(dt.hour as int);
    lemma_two_digit_recompose(dt.minute as int);
    lemma_two_digit_recompose(dt.second as int);
    assert(datetime_of_chars(s) == dt);
}

/// Whole minutes elapsed from `earlier` to `later`, truncated toward
/// zero; negative when `later` is the earlier of the two.  The value is a
/// function of the two moments alone.
pub uninterp spec fn minutes_between_of(
    later: (int, int, int, int, int, int),
    earlier: (int, int, int, int, int, int),
) -> int;

/// Relies on chrono's `NaiveDateTime::signed_duration_since` and
/// `TimeDelta::num_minutes`: the difference of two naive date-times is
/// exact, and `num_minutes` is the count of whole minutes in it,
/// truncated toward zero.  Both are functions of the two moments alone.
/// The arguments convert through `NaiveDate::from_ymd_opt` and
/// `NaiveDate::and_hms_opt`, which accept every valid moment.
#[verifier::external_body]
pub(crate) fn minutes_between(later: DateTime, earlier: DateTime) -> (r: i64)
    requires
        later.wf(),
        earlier.wf(),
    ensures
        r == minutes_between_of(later@, earlier@),
{
    let a = chrono::NaiveDate::from_ymd_opt(later.date.year as i32, later.date.month, later.date.day)
        .unwrap()
        .and_hms_opt(later.hour, later.minute, later.second)
        .unwrap();
    let b = chrono::NaiveDate::from_ymd_opt(
        earlier.date.year as i32,
        earlier.date.month,
        earlier.date.day,
    )
        .unwrap()
        .and_hms_opt(earlier.hour, earlier.minute, earlier.second)
        .unwrap();
    a.signed_duration_since(b).num_minutes()
}

} // verus!
