//! The grammar of datetimes: a full date, a time of day, and an offset from
//! UTC that is written out.

use vstd::prelude::*;
use vstd::string::{StringExecFns, StringSliceAdditionalSpecFns};
use vstd::utf8::{encode_utf8, is_ascii_chars};

use crate::error::ParseError;
use crate::scan::{
    ascii_substring, is_ascii_bytes, is_digit, lemma_ascii_text_ascii_bytes, spec_is_digit,
};

verus! {

/// The number that the digit `b` stands for.
pub open spec fn digit_value(b: u8) -> int {
    b - 0x30
}

/// Whether the bytes of `s` from `from` up to `to` are digits.
pub open spec fn are_digits(s: Seq<u8>, from: int, to: int) -> bool {
    forall|i: int| from <= i < to ==> spec_is_digit(#[trigger] s[i])
}

/// The number written by the two digits of `s` at `at`.
pub open spec fn two_digits(s: Seq<u8>, at: int) -> int {
    10 * digit_value(s[at]) + digit_value(s[at + 1])
}

/// The number written by the four digits of `s` at `at`.
pub open spec fn four_digits(s: Seq<u8>, at: int) -> int {
    100 * two_digits(s, at) + two_digits(s, at + 2)
}

/// Whether the year `y` has a 29th of February.
pub open spec fn spec_is_leap_year(y: int) -> bool {
    y % 4 == 0 && (y % 100 != 0 || y % 400 == 0)
}

/// The number of days of month `m` in year `y`.
pub open spec fn spec_days_in_month(y: int, m: int) -> int {
    if m == 2 {
        if spec_is_leap_year(y) {
            29
        } else {
            28
        }
    } else if m == 4 || m == 6 || m == 9 || m == 11 {
        30
    } else {
        31
    }
}

/// The index at which the run of digits that starts at `from` ends.
pub open spec fn digits_end(s: Seq<u8>, from: int) -> int
    decreases s.len() - from,
{
    if 0 <= from < s.len() && spec_is_digit(s[from]) {
        digits_end(s, from + 1)
    } else {
        from
    }
}

/// The shape of date and time in the first 19 bytes: `YYYY-MM-DDThh:mm:ss`.
pub open spec fn spec_has_date_time_shape(s: Seq<u8>) -> bool {
    &&& s.len() >= 19
    &&& are_digits(s, 0, 4)
    &&& s[4] == 0x2d
    &&& are_digits(s, 5, 7)
    &&& s[7] == 0x2d
    &&& are_digits(s, 8, 10)
    &&& s[10] == 0x54
    &&& are_digits(s, 11, 13)
    &&& s[13] == 0x3a
    &&& are_digits(s, 14, 16)
    &&& s[16] == 0x3a
    &&& are_digits(s, 17, 19)
}

/// Date and time in the first 19 bytes name a day of the calendar and a
/// second of that day.
pub open spec fn spec_is_valid_date_time(s: Seq<u8>) -> bool {
    &&& spec_has_date_time_shape(s)
    &&& 1 <= two_digits(s, 5) <= 12
    &&& 1 <= two_digits(s, 8) <= spec_days_in_month(four_digits(s, 0), two_digits(s, 5))
    &&& two_digits(s, 11) <= 23
    &&& two_digits(s, 14) <= 59
    &&& two_digits(s, 17) <= 59
}

/// An offset from UTC: `Z`, or a sign, hours up to 23, `:` and minutes up to
/// 59.
pub open spec fn spec_is_valid_offset(z: Seq<u8>) -> bool {
    ||| z.len() == 1 && z[0] == 0x5a
    ||| {
        &&& z.len() == 6
        &&& (z[0] == 0x2b || z[0] == 0x2d)
        &&& are_digits(z, 1, 3)
        &&& z[3] == 0x3a
        &&& are_digits(z, 4, 6)
        &&& two_digits(z, 1) <= 23
        &&& two_digits(z, 4) <= 59
    }
}

/// The index at which the offset starts: behind the seconds, or behind the
/// fraction of a second where `.` follows the seconds.
pub open spec fn offset_start(s: Seq<u8>) -> int {
    if s.len() > 19 && s[19] == 0x2e {
        digits_end(s, 20)
    } else {
        19
    }
}

/// The datetime grammar: `YYYY-MM-DDThh:mm:ss`, then optionally `.` and one
/// or more digits, then an offset from UTC. A text without an offset is
/// rejected.
pub open spec fn spec_is_valid_datetime(s: Seq<u8>) -> bool {
    &&& spec_is_valid_date_time(s)
    &&& offset_start(s) != 20
    &&& offset_start(s) <= s.len()
    &&& spec_is_valid_offset(s.subrange(offset_start(s), s.len() as int))
}

/// Decides whether the year `y` has a 29th of February.
pub fn is_leap_year(y: u32) -> (res: bool)
    ensures
        res == spec_is_leap_year(y as int),
{
    y % 4 == 0 && (y % 100 != 0 || y % 400 == 0)
}

/// The number of days of month `m` in year `y`.
pub fn days_in_month(y: u32, m: u32) -> (res: u32)
    ensures
        res == spec_days_in_month(y as int, m as int),
{
    if m == 2 {
        if is_leap_year(y) {
            29
        } else {
            28
        }
    } else if m == 4 || m == 6 || m == 9 || m == 11 {
        30
    } else {
        31
    }
}

/// Reads the number written by two digits of `s` at `at`: `None` where one
/// of the two bytes is no digit.
pub fn read_two_digits(s: &[u8], at: usize) -> (res: Option<u32>)
    requires
        at + 2 <= s@.len(),
    ensures
        res is Some <==> are_digits(s@, at as int, at + 2),
        res matches Some(n) ==> n == two_digits(s@, at as int),
{
    if is_digit(s[at]) && is_digit(s[at + 1]) {
        let hi: u32 = (s[at] - 0x30) as u32;
        let lo: u32 = (s[at + 1] - 0x30) as u32;
        Some(10 * hi + lo)
    } else {
        assert(!spec_is_digit(s@[at as int]) || !spec_is_digit(s@[at + 1]));
        None
    }
}

/// Decides whether `s` starts with a date and a time of day.
pub fn is_valid_date_time(s: &[u8]) -> (res: bool)
    ensures
        res == spec_is_valid_date_time(s@),
{
    if s.len() < 19 {
        return false;
    }
    if s[4] != 0x2d || s[7] != 0x2d || s[10] != 0x54 || s[13] != 0x3a || s[16] != 0x3a {
        return false;
    }
    let century: Option<u32> = read_two_digits(s, 0);
    let years: Option<u32> = read_two_digits(s, 2);
    let month: Option<u32> = read_two_digits(s, 5);
    let day: Option<u32> = read_two_digits(s, 8);
    let hour: Option<u32> = read_two_digits(s, 11);
    let minute: Option<u32> = read_two_digits(s, 14);
    let second: Option<u32> = read_two_digits(s, 17);
    match (century, years, month, day, hour, minute, second) {
        (Some(c), Some(y), Some(m), Some(d), Some(h), Some(min), Some(sec)) => {
            assert(are_digits(s@, 0, 4)) by {
                assert forall|i: int| 0 <= i < 4 implies spec_is_digit(#[trigger] s@[i]) by {
                    if i < 2 {
                        assert(are_digits(s@, 0, 2));
                    } else {
                        assert(are_digits(s@, 2, 4));
                    }
                }
            }
            1 <= m && m <= 12 && 1 <= d && d <= days_in_month(100 * c + y, m) && h <= 23 && min
                <= 59 && sec <= 59
        },
        _ => {
            assert(!spec_has_date_time_shape(s@)) by {
                if spec_has_date_time_shape(s@) {
                    assert(are_digits(s@, 0, 2));
                    assert(are_digits(s@, 2, 4));
                }
            }
            false
        },
    }
}

/// Decides whether `z` is an offset from UTC.
pub fn is_valid_offset(z: &[u8]) -> (res: bool)
    ensures
        res == spec_is_valid_offset(z@),
{
    if z.len() == 1 {
        return z[0] == 0x5a;
    }
    if z.len() != 6 {
        return false;
    }
    if (z[0] != 0x2b && z[0] != 0x2d) || z[3] != 0x3a {
        return false;
    }
    match (read_two_digits(z, 1), read_two_digits(z, 4)) {
        (Some(h), Some(m)) => h <= 23 && m <= 59,
        _ => false,
    }
}

/// Finds where the run of digits that starts at `from` ends.
pub fn find_digits_end(s: &[u8], from: usize) -> (res: usize)
    requires
        from <= s@.len(),
    ensures
        res == digits_end(s@, from as int),
        from <= res <= s@.len(),
{
    let mut i: usize = from;
    while i < s.len() && is_digit(s[i])
        invariant
            from <= i <= s@.len(),
            digits_end(s@, from as int) == digits_end(s@, i as int),
        decreases s@.len() - i,
    {
        i += 1;
    }
    i
}

/// Decides whether `s` is a datetime.
pub fn is_valid_datetime(s: &[u8]) -> (res: bool)
    ensures
        res == spec_is_valid_datetime(s@),
{
    if !is_valid_date_time(s) {
        return false;
    }
    let n: usize = s.len();
    let start: usize = if n > 19 && s[19] == 0x2e {
        find_digits_end(s, 20)
    } else {
        19
    };
    if start == 20 {
        return false;
    }
    is_valid_offset(vstd::slice::slice_subrange(s, start, n))
}

/// A day of the calendar and a second of that day, as numbers.
#[derive(Clone, Copy, Debug, PartialEq, Eq, Structural)]
pub struct Moment {
    pub year: u32,
    pub month: u32,
    pub day: u32,
    pub hour: u32,
    pub minute: u32,
    pub second: u32,
}

impl Moment {
    /// The year has four digits, and the other numbers name a day of the
    /// calendar and a second of that day.
    pub open spec fn is_valid(self) -> bool {
        &&& self.year <= 9999
        &&& 1 <= self.month <= 12
        &&& 1 <= self.day <= spec_days_in_month(self.year as int, self.month as int)
        &&& self.hour <= 23
        &&& self.minute <= 59
        &&& self.second <= 59
    }

    /// The same day and second, with hour and minute set to minute `t` of the
    /// day.
    pub open spec fn with_minute_of_day(self, t: int) -> Moment {
        Moment { hour: (t / 60) as u32, minute: (t % 60) as u32, ..self }
    }

    /// The same time on the day before.
    pub open spec fn day_before(self) -> Moment {
        if self.day > 1 {
            Moment { day: (self.day - 1) as u32, ..self }
        } else if self.month > 1 {
            Moment {
                month: (self.month - 1) as u32,
                day: spec_days_in_month(self.year as int, self.month - 1) as u32,
                ..self
            }
        } else {
            Moment { year: (self.year - 1) as u32, month: 12, day: 31, ..self }
        }
    }

    /// The same time on the day after.
    pub open spec fn day_after(self) -> Moment {
        if self.day < spec_days_in_month(self.year as int, self.month as int) {
            Moment { day: (self.day + 1) as u32, ..self }
        } else if self.month < 12 {
            Moment { month: (self.month + 1) as u32, day: 1, ..self }
        } else {
            Moment { year: (self.year + 1) as u32, month: 1, day: 1, ..self }
        }
    }

    /// This moment, read at `offset` minutes east of UTC, as a moment of UTC:
    /// the offset is taken off, which may lead into the day before or the day
    /// after. `None` where that day lies outside the years 0000 to 9999.
    pub open spec fn spec_to_utc(self, offset: int) -> Option<Moment> {
        let t = self.hour * 60 + self.minute - offset;
        if t < 0 {
            if self.year == 0 && self.month == 1 && self.day == 1 {
                None
            } else {
                Some(self.day_before().with_minute_of_day(t + 1440))
            }
        } else if t >= 1440 {
            if self.year == 9999 && self.month == 12 && self.day == 31 {
                None
            } else {
                Some(self.day_after().with_minute_of_day(t - 1440))
            }
        } else {
            Some(self.with_minute_of_day(t))
        }
    }

    /// Takes the offset off: see `spec_to_utc`.
    pub fn to_utc(self, offset: i32) -> (res: Option<Moment>)
        requires
            self.is_valid(),
            -1440 < offset < 1440,
        ensures
            res == self.spec_to_utc(offset as int),
            res matches Some(m) ==> m.is_valid(),
    {
        let t: i32 = (self.hour * 60 + self.minute) as i32 - offset;
        if t < 0 {
            if self.year == 0 && self.month == 1 && self.day == 1 {
                return None;
            }
            let u: u32 = (t + 1440) as u32;
            let hour: u32 = u / 60;
            let minute: u32 = u % 60;
            if self.day > 1 {
                Some(Moment { day: self.day - 1, hour, minute, ..self })
            } else if self.month > 1 {
                Some(
                    Moment {
                        month: self.month - 1,
                        day: days_in_month(self.year, self.month - 1),
                        hour,
                        minute,
                        ..self
                    },
                )
            } else {
                Some(Moment { year: self.year - 1, month: 12, day: 31, hour, minute, ..self })
            }
        } else if t >= 1440 {
            if self.year == 9999 && self.month == 12 && self.day == 31 {
                return None;
            }
            let u: u32 = (t - 1440) as u32;
            let hour: u32 = u / 60;
            let minute: u32 = u % 60;
            if self.day < days_in_month(self.year, self.month) {
                Some(Moment { day: self.day + 1, hour, minute, ..self })
            } else if self.month < 12 {
                Some(Moment { month: self.month + 1, day: 1, hour, minute, ..self })
            } else {
                Some(Moment { year: self.year + 1, month: 1, day: 1, hour, minute, ..self })
            }
        } else {
            let u: u32 = t as u32;
            Some(Moment { hour: u / 60, minute: u % 60, ..self })
        }
    }
}

/// The number of days of year `y`.
pub open spec fn days_in_year(y: int) -> int {
    if spec_is_leap_year(y) {
        366
    } else {
        365
    }
}

/// The number of days from the start of year 0 to the start of year `y`.
pub open spec fn days_before_year(y: int) -> int
    decreases y,
{
    if y <= 0 {
        0
    } else {
        days_before_year(y - 1) + days_in_year(y - 1)
    }
}

/// The number of days from the start of year `y` to the start of its month
/// `m`.
pub open spec fn days_before_month(y: int, m: int) -> int
    decreases m,
{
    if m <= 1 {
        0
    } else {
        days_before_month(y, m - 1) + spec_days_in_month(y, m - 1)
    }
}

/// The number of the day of a moment, counted from the first day of year 0.
pub open spec fn day_number(m: Moment) -> int {
    days_before_year(m.year as int) + days_before_month(m.year as int, m.month as int) + m.day
        - 1
}

/// The number of the minute of a moment, counted from the start of year 0.
pub open spec fn minute_number(m: Moment) -> int {
    day_number(m) * 1440 + m.hour * 60 + m.minute
}

/// The months of a year hold all its days.
pub proof fn lemma_days_of_months(y: int)
    ensures
        days_before_month(y, 12) + 31 == days_in_year(y),
{
    reveal_with_fuel(days_before_month, 13);
}

/// The day after is the next day, and the day before the previous one.
pub proof fn lemma_neighbour_days(m: Moment)
    requires
        m.is_valid(),
    ensures
        !(m.year == 9999 && m.month == 12 && m.day == 31) ==> m.day_after().is_valid()
            && day_number(m.day_after()) == day_number(m) + 1,
        !(m.year == 0 && m.month == 1 && m.day == 1) ==> m.day_before().is_valid()
            && day_number(m.day_before()) == day_number(m) - 1,
{
    lemma_days_of_months(m.year as int);
    lemma_days_of_months(m.year - 1);
}

/// Taking the offset off keeps the moment: the result is a valid moment
/// that lies `offset` minutes before the moment as written, with the same
/// second.
pub proof fn lemma_to_utc_keeps_moment(m: Moment, offset: int)
    requires
        m.is_valid(),
        -1440 < offset < 1440,
        m.spec_to_utc(offset) is Some,
    ensures
        m.spec_to_utc(offset).unwrap().is_valid(),
        minute_number(m.spec_to_utc(offset).unwrap()) == minute_number(m) - offset,
        m.spec_to_utc(offset).unwrap().second == m.second,
{
    lemma_neighbour_days(m);
}

/// The run of digits that starts at `from` holds digits only, and ends at
/// the end of `s` or in front of a byte that is no digit.
pub proof fn lemma_digits_end(s: Seq<u8>, from: int)
    requires
        0 <= from <= s.len(),
    ensures
        from <= digits_end(s, from) <= s.len(),
        are_digits(s, from, digits_end(s, from)),
        digits_end(s, from) < s.len() ==> !spec_is_digit(s[digits_end(s, from)]),
    decreases s.len() - from,
{
    if from < s.len() && spec_is_digit(s[from]) {
        lemma_digits_end(s, from + 1);
    }
}

/// A run of digits from `from` up to `to`, with the end of `s` or a byte that
/// is no digit behind it, is the run that `digits_end` measures.
pub proof fn lemma_digits_end_is(s: Seq<u8>, from: int, to: int)
    requires
        0 <= from <= to <= s.len(),
        are_digits(s, from, to),
        to < s.len() ==> !spec_is_digit(s[to]),
    ensures
        digits_end(s, from) == to,
    decreases to - from,
{
    if from < to {
        assert(spec_is_digit(s[from]));
        lemma_digits_end_is(s, from + 1, to);
    }
}

/// The two digits that write `n`, for `n` below 100.
pub open spec fn digits2(n: int) -> Seq<u8> {
    seq![(0x30 + n / 10) as u8, (0x30 + n % 10) as u8]
}

/// The text `YYYY-MM-DDThh:mm:ss` of a moment.
pub open spec fn render_moment(m: Moment) -> Seq<u8> {
    digits2((m.year / 100) as int) + digits2((m.year % 100) as int) + seq![0x2du8] + digits2(m.month as int)
        + seq![0x2du8] + digits2(m.day as int) + seq![0x54u8] + digits2(m.hour as int)
        + seq![0x3au8] + digits2(m.minute as int) + seq![0x3au8] + digits2(m.second as int)
}

/// The moment that the first 19 bytes of a datetime write, as written: in
/// the offset of the datetime.
pub open spec fn spec_moment(s: Seq<u8>) -> Moment {
    Moment {
        year: four_digits(s, 0) as u32,
        month: two_digits(s, 5) as u32,
        day: two_digits(s, 8) as u32,
        hour: two_digits(s, 11) as u32,
        minute: two_digits(s, 14) as u32,
        second: two_digits(s, 17) as u32,
    }
}

/// The minutes east of UTC that an offset writes: 0 for `Z`.
pub open spec fn spec_offset_minutes(z: Seq<u8>) -> int {
    if z.len() == 6 {
        if z[0] == 0x2d {
            -(60 * two_digits(z, 1) + two_digits(z, 4))
        } else {
            60 * two_digits(z, 1) + two_digits(z, 4)
        }
    } else {
        0
    }
}

/// The offset of a datetime.
pub open spec fn spec_offset(s: Seq<u8>) -> Seq<u8> {
    s.subrange(offset_start(s), s.len() as int)
}

/// The fraction of a second of a datetime, with its `.`: empty where the
/// datetime has none.
pub open spec fn spec_fraction(s: Seq<u8>) -> Seq<u8> {
    s.subrange(19, offset_start(s))
}

/// The moment of UTC that a datetime names: `None` where its day lies outside
/// the years 0000 to 9999.
pub open spec fn spec_utc(s: Seq<u8>) -> Option<Moment> {
    spec_moment(s).spec_to_utc(spec_offset_minutes(spec_offset(s)))
}

/// The canonical text of a datetime: its moment of UTC, the fraction of a
/// second as it was written, and `Z`.
pub open spec fn spec_canonical(s: Seq<u8>) -> Seq<u8>
    recommends
        spec_utc(s) is Some,
{
    render_moment(spec_utc(s).unwrap()) + spec_fraction(s) + seq![0x5au8]
}

/// Whether parsing accepts `s`: it is a datetime, and its moment of UTC lies
/// in the years 0000 to 9999.
pub open spec fn spec_accepts_datetime(s: Seq<u8>) -> bool {
    spec_is_valid_datetime(s) && spec_utc(s) is Some
}

/// A fraction of a second as it stands in a datetime: nothing, or `.` and
/// one or more digits.
pub open spec fn spec_is_fraction(f: Seq<u8>) -> bool {
    f.len() == 0 || (f.len() >= 2 && f[0] == 0x2e && are_digits(f, 1, f.len() as int))
}

/// The fraction of a datetime is a fraction.
pub proof fn lemma_fraction_of_valid(s: Seq<u8>)
    requires
        spec_is_valid_datetime(s),
    ensures
        spec_is_fraction(spec_fraction(s)),
        19 <= offset_start(s) <= s.len(),
{
    if s.len() > 19 && s[19] == 0x2e {
        lemma_digits_end(s, 20);
        let f = spec_fraction(s);
        assert forall|i: int| 1 <= i < f.len() implies spec_is_digit(#[trigger] f[i]) by {
            assert(f[i] == s[19 + i]);
        }
    }
}

/// Every byte of a datetime is an ASCII byte.
pub proof fn lemma_datetime_is_ascii(s: Seq<u8>)
    requires
        spec_is_valid_datetime(s),
    ensures
        is_ascii_bytes(s),
{
    lemma_fraction_of_valid(s);
    let f = spec_fraction(s);
    let z = spec_offset(s);
    let start = offset_start(s);
    assert forall|i: int| 0 <= i < s.len() implies #[trigger] s[i] < 0x80 by {
        if i < 19 {
            if i == 4 || i == 7 || i == 10 || i == 13 || i == 16 {
            } else {
                assert(spec_is_digit(s[i]));
            }
        } else if i < start {
            assert(s[i] == f[i - 19]);
            if i > 19 {
                assert(spec_is_digit(f[i - 19]));
            }
        } else {
            assert(s[i] == z[i - start]);
            if z.len() == 6 && i - start != 0 && i - start != 3 {
                assert(spec_is_digit(z[i - start]));
            }
        }
    }
}

/// The text of a valid moment of UTC, a fraction and `Z` is a datetime that
/// names this moment, has this fraction, and is its own canonical text.
pub proof fn lemma_canonical_is_valid(m: Moment, f: Seq<u8>)
    requires
        m.is_valid(),
        spec_is_fraction(f),
    ensures
        spec_accepts_datetime(render_moment(m) + f + seq![0x5au8]),
        spec_utc(render_moment(m) + f + seq![0x5au8]) == Some(m),
        spec_fraction(render_moment(m) + f + seq![0x5au8]) == f,
        spec_canonical(render_moment(m) + f + seq![0x5au8]) == render_moment(m) + f + seq![0x5au8],
{
    let r = render_moment(m);
    let c = r + f + seq![0x5au8];
    assert(r.len() == 19);
    assert(c.len() == 20 + f.len());
    assert forall|i: int| 0 <= i < 19 implies c[i] == r[i] by {}
    assert(c[0] == (0x30 + (m.year / 100) / 10) as u8);
    assert(c[1] == (0x30 + (m.year / 100) % 10) as u8);
    assert(c[2] == (0x30 + (m.year % 100) / 10) as u8);
    assert(c[3] == (0x30 + (m.year % 100) % 10) as u8);
    assert(c[4] == 0x2d);
    assert(c[5] == (0x30 + m.month / 10) as u8);
    assert(c[6] == (0x30 + m.month % 10) as u8);
    assert(c[7] == 0x2d);
    assert(c[8] == (0x30 + m.day / 10) as u8);
    assert(c[9] == (0x30 + m.day % 10) as u8);
    assert(c[10] == 0x54);
    assert(c[11] == (0x30 + m.hour / 10) as u8);
    assert(c[12] == (0x30 + m.hour % 10) as u8);
    assert(c[13] == 0x3a);
    assert(c[14] == (0x30 + m.minute / 10) as u8);
    assert(c[15] == (0x30 + m.minute % 10) as u8);
    assert(c[16] == 0x3a);
    assert(c[17] == (0x30 + m.second / 10) as u8);
    assert(c[18] == (0x30 + m.second % 10) as u8);
    assert(spec_has_date_time_shape(c));
    assert(spec_moment(c) == m);
    assert(spec_is_valid_date_time(c));
    let end: int = 19 + f.len() as int;
    assert(c[end] == 0x5a);
    if f.len() == 0 {
        assert(offset_start(c) == 19);
    } else {
        assert(c[19] == f[0]);
        assert forall|i: int| 20 <= i < end implies spec_is_digit(#[trigger] c[i]) by {
            assert(c[i] == f[i - 19]);
        }
        lemma_digits_end_is(c, 20, end);
        assert(offset_start(c) == end);
    }
    assert(spec_offset(c) =~= seq![0x5au8]);
    assert(spec_fraction(c) =~= f);
    assert(spec_offset_minutes(spec_offset(c)) == 0);
    assert(m.with_minute_of_day(m.hour * 60 + m.minute) == m);
    assert(spec_utc(c) == Some(m));
}

/// The text of one byte, for a digit or one of `-`, `:`, `T`, `Z`.
fn byte_text(b: u8) -> (res: &'static str)
    requires
        spec_is_digit(b) || b == 0x2d || b == 0x3a || b == 0x54 || b == 0x5a,
    ensures
        vstd::string::is_ascii(res),
        res.spec_bytes() == seq![b],
{
    proof {
        reveal_strlit("0");
        reveal_strlit("1");
        reveal_strlit("2");
        reveal_strlit("3");
        reveal_strlit("4");
        reveal_strlit("5");
        reveal_strlit("6");
        reveal_strlit("7");
        reveal_strlit("8");
        reveal_strlit("9");
        reveal_strlit("-");
        reveal_strlit(":");
        reveal_strlit("T");
        reveal_strlit("Z");
    }
    let res: &'static str = match b {
        0x30 => "0",
        0x31 => "1",
        0x32 => "2",
        0x33 => "3",
        0x34 => "4",
        0x35 => "5",
        0x36 => "6",
        0x37 => "7",
        0x38 => "8",
        0x39 => "9",
        0x2d => "-",
        0x3a => ":",
        0x54 => "T",
        _ => "Z",
    };
    assert(res@.len() == 1);
    assert(res@[0] as u8 == b);
    assert(is_ascii_chars(res@));
    proof {
        vstd::utf8::is_ascii_chars_encode_utf8(res@);
    }
    assert(res.spec_bytes() =~= seq![b]);
    res
}

/// Appends an ASCII text to an ASCII text.
fn push_ascii(text: &mut String, piece: &str)
    requires
        is_ascii_chars(old(text)@),
        vstd::string::is_ascii(piece),
    ensures
        is_ascii_chars(final(text)@),
        encode_utf8(final(text)@) == encode_utf8(old(text)@) + piece.spec_bytes(),
{
    let ghost before = text@;
    text.append(piece);
    proof {
        vstd::utf8::is_ascii_chars_encode_utf8(before);
        vstd::utf8::is_ascii_chars_encode_utf8(piece@);
        assert(is_ascii_chars(text@));
        vstd::utf8::is_ascii_chars_encode_utf8(text@);
        assert(encode_utf8(text@) =~= encode_utf8(before) + encode_utf8(piece@));
    }
}

/// Appends the two digits that write `n`.
fn push_two_digits(text: &mut String, n: u32)
    requires
        is_ascii_chars(old(text)@),
        n < 100,
    ensures
        is_ascii_chars(final(text)@),
        encode_utf8(final(text)@) == encode_utf8(old(text)@) + digits2(n as int),
{
    let hi: u8 = 0x30 + (n / 10) as u8;
    let lo: u8 = 0x30 + (n % 10) as u8;
    let ghost before = encode_utf8(text@);
    push_ascii(text, byte_text(hi));
    push_ascii(text, byte_text(lo));
    assert(before + seq![hi] + seq![lo] =~= before + digits2(n as int));
}

/// Writes the canonical text of a moment of UTC with a fraction of a second.
fn render(m: Moment, fraction: &str) -> (res: String)
    requires
        m.is_valid(),
        vstd::string::is_ascii(fraction),
    ensures
        encode_utf8(res@) == render_moment(m) + fraction.spec_bytes() + seq![0x5au8],
{
    let mut text: String = String::new();
    assert(encode_utf8(text@) =~= Seq::<u8>::empty());
    push_two_digits(&mut text, m.year / 100);
    push_two_digits(&mut text, m.year % 100);
    push_ascii(&mut text, byte_text(0x2d));
    push_two_digits(&mut text, m.month);
    push_ascii(&mut text, byte_text(0x2d));
    push_two_digits(&mut text, m.day);
    push_ascii(&mut text, byte_text(0x54));
    push_two_digits(&mut text, m.hour);
    push_ascii(&mut text, byte_text(0x3a));
    push_two_digits(&mut text, m.minute);
    push_ascii(&mut text, byte_text(0x3a));
    push_two_digits(&mut text, m.second);
    assert(encode_utf8(text@) =~= render_moment(m));
    push_ascii(&mut text, fraction);
    push_ascii(&mut text, byte_text(0x5a));
    text
}

/// Reads the moment that the first 19 bytes of `s` write.
fn read_moment(s: &[u8]) -> (res: Moment)
    requires
        spec_is_valid_date_time(s@),
    ensures
        res == spec_moment(s@),
        res.is_valid(),
{
    assert(are_digits(s@, 0, 2) && are_digits(s@, 2, 4));
    let century: u32 = read_two_digits(s, 0).unwrap_or(0);
    let years: u32 = read_two_digits(s, 2).unwrap_or(0);
    let month: u32 = read_two_digits(s, 5).unwrap_or(0);
    let day: u32 = read_two_digits(s, 8).unwrap_or(0);
    let hour: u32 = read_two_digits(s, 11).unwrap_or(0);
    let minute: u32 = read_two_digits(s, 14).unwrap_or(0);
    let second: u32 = read_two_digits(s, 17).unwrap_or(0);
    Moment { year: 100 * century + years, month, day, hour, minute, second }
}

/// Reads the minutes east of UTC that the offset `z` writes.
fn read_offset(z: &[u8]) -> (res: i32)
    requires
        spec_is_valid_offset(z@),
    ensures
        res == spec_offset_minutes(z@),
        -1440 < res < 1440,
{
    if z.len() != 6 {
        return 0;
    }
    let hours: u32 = read_two_digits(z, 1).unwrap_or(0);
    let minutes: u32 = read_two_digits(z, 4).unwrap_or(0);
    let total: i32 = (60 * hours + minutes) as i32;
    if z[0] == 0x2d {
        -total
    } else {
        total
    }
}

/// A datetime. A value holds the canonical text of a moment: in UTC, with
/// `Z` for the offset.
#[derive(Debug)]
pub struct DateTime {
    text: String,
}

impl View for DateTime {
    type V = Seq<char>;

    /// The canonical text of the datetime.
    closed spec fn view(&self) -> Seq<char> {
        self.text@
    }
}

impl DateTime {
    #[verifier::type_invariant]
    spec fn inv(self) -> bool {
        let b = encode_utf8(self.text@);
        spec_accepts_datetime(b) && spec_canonical(b) == b
    }

    /// Parses a datetime and brings it into canonical form: whatever offset
    /// the text has, the value holds the same moment in UTC, with the
    /// fraction of a second as it was written.
    pub fn from_str(s: &str) -> (res: Result<DateTime, ParseError>)
        ensures
            res is Ok <==> spec_accepts_datetime(s.spec_bytes()),
            res matches Ok(d) ==> encode_utf8(d@) == spec_canonical(s.spec_bytes()),
            res matches Err(e) ==> e == ParseError::DateTime,
    {
        let bytes: &[u8] = s.as_bytes();
        if !is_valid_datetime(bytes) {
            return Err(ParseError::datetime());
        }
        proof {
            lemma_datetime_is_ascii(bytes@);
            lemma_ascii_text_ascii_bytes(s@);
            lemma_fraction_of_valid(bytes@);
        }
        let n: usize = bytes.len();
        let start: usize = if n > 19 && bytes[19] == 0x2e {
            find_digits_end(bytes, 20)
        } else {
            19
        };
        let local: Moment = read_moment(bytes);
        let offset: i32 = read_offset(vstd::slice::slice_subrange(bytes, start, n));
        match local.to_utc(offset) {
            None => Err(ParseError::datetime()),
            Some(utc) => {
                let text: String = render(utc, ascii_substring(s, 19, start));
                proof {
                    lemma_canonical_is_valid(utc, spec_fraction(bytes@));
                }
                Ok(DateTime { text })
            },
        }
    }

    /// The moment of UTC that the datetime names, without the fraction of a
    /// second.
    pub fn moment(&self) -> (res: Moment)
        ensures
            spec_utc(encode_utf8(self@)) == Some(res),
            res.is_valid(),
    {
        proof {
            use_type_invariant(self);
        }
        let bytes: &[u8] = self.text.as_str().as_bytes();
        let res: Moment = read_moment(bytes);
        proof {
            let b = bytes@;
            lemma_fraction_of_valid(b);
            let z = spec_offset(b);
            assert(b[b.len() - 1] == spec_canonical(b)[b.len() - 1]);
            assert(z[z.len() - 1] == b[b.len() - 1]);
            assert(z.len() == 1);
            assert(res.with_minute_of_day(res.hour * 60 + res.minute) == res);
        }
        res
    }

    /// The canonical text of the datetime. Parsing accepts it and leaves it
    /// as it is.
    pub fn as_str(&self) -> (res: &str)
        ensures
            res@ == self@,
            spec_accepts_datetime(res.spec_bytes()),
            spec_canonical(res.spec_bytes()) == res.spec_bytes(),
    {
        proof {
            use_type_invariant(self);
        }
        self.text.as_str()
    }

    /// The canonical text of the datetime, as an owned string.
    pub fn to_string(&self) -> (res: String)
        ensures
            res@ == self@,
            spec_accepts_datetime(encode_utf8(res@)),
            spec_canonical(encode_utf8(res@)) == encode_utf8(res@),
    {
        proof {
            use_type_invariant(self);
        }
        self.text.clone()
    }
}

impl Clone for DateTime {
    fn clone(&self) -> (res: DateTime)
        ensures
            res@ == self@,
    {
        proof {
            use_type_invariant(self);
        }
        DateTime { text: self.text.clone() }
    }
}

impl PartialEq for DateTime {
    fn eq(&self, other: &DateTime) -> (res: bool) {
        self.text == other.text
    }
}

impl Eq for DateTime {}

impl vstd::std_specs::cmp::PartialEqSpecImpl for DateTime {
    open spec fn obeys_eq_spec() -> bool {
        true
    }

    open spec fn eq_spec(&self, other: &DateTime) -> bool {
        self@ == other@
    }
}

} // verus!
