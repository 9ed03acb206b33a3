//! Instants of UTC at second precision, held as civil date and time of day
//! together with the seconds since 1970-01-01T00:00:00Z.

use vstd::prelude::*;
use chrono::offset::LocalResult;
use chrono::{DateTime, Datelike, TimeZone, Timelike, Utc};
use crate::error::SnapshotField;
use crate::text::{
    char_is_digit, char_of_digit, digit_char, digit_value, is_digit, lemma_precedes_blocks,
    lemma_precedes_irreflexive, precedes, value_of_digit,
};

verus! {

/// The seconds from 1970-01-01T00:00:00Z to the given civil date and time
/// of day in UTC; `None` where the calendar holds no such instant.
pub uninterp spec fn utc_seconds(
    year: i32,
    month: u32,
    day: u32,
    hour: u32,
    minute: u32,
    second: u32,
) -> Option<i64>;

/// The civil date and time of day in UTC, as year, month, day, hour, minute
/// and second, of the instant that lies the given seconds after
/// 1970-01-01T00:00:00Z; `None` where the instant is out of the calendar's
/// range.
pub uninterp spec fn utc_civil(seconds: i64) -> Option<(i32, u32, u32, u32, u32, u32)>;

/// Calls chrono's `TimeZone::with_ymd_and_hms` on `Utc`, and
/// `DateTime::timestamp` on the instant that it gives. The result is a
/// function of the six numbers alone; nothing more is claimed of it.
#[verifier::external_body]
fn seconds_of_civil(year: i32, month: u32, day: u32, hour: u32, minute: u32, second: u32) -> (r:
    Option<i64>)
    ensures
        r == utc_seconds(year, month, day, hour, minute, second),
{
    match Utc.with_ymd_and_hms(year, month, day, hour, minute, second) {
        LocalResult::Single(t) => Some(t.timestamp()),
        LocalResult::Ambiguous(_, _) => None,
        LocalResult::None => None,
    }
}

/// Calls chrono's `DateTime::from_timestamp` with no nanoseconds, and reads
/// the six civil fields of the instant that it gives. The result is a
/// function of `seconds` alone; nothing more is claimed of it.
#[verifier::external_body]
fn civil_of_seconds(seconds: i64) -> (r: Option<(i32, u32, u32, u32, u32, u32)>)
    ensures
        r == utc_civil(seconds),
{
    match DateTime::from_timestamp(seconds, 0) {
        Some(t) => Some((t.year(), t.month(), t.day(), t.hour(), t.minute(), t.second())),
        None => None,
    }
}

/// An instant as plain numbers.
pub struct Instant {
    pub year: int,
    pub month: int,
    pub day: int,
    pub hour: int,
    pub minute: int,
    pub second: int,
    pub seconds: int,
}

/// Whether the civil fields of `v` lie in the ranges that the canonical
/// text can hold.
pub open spec fn in_range(v: Instant) -> bool {
    &&& 0 <= v.year <= 9999
    &&& 1 <= v.month <= 12
    &&& 1 <= v.day <= 31
    &&& 0 <= v.hour <= 23
    &&& 0 <= v.minute <= 59
    &&& 0 <= v.second <= 59
}

/// Whether `v` is an instant of the calendar: its fields are in range, and
/// its seconds, which fit 64 bits, are those of its civil fields.
pub open spec fn valid(v: Instant) -> bool {
    &&& in_range(v)
    &&& utc_seconds(
        v.year as i32,
        v.month as u32,
        v.day as u32,
        v.hour as u32,
        v.minute as u32,
        v.second as u32,
    ) == Some(v.seconds as i64)
    &&& i64::MIN <= v.seconds <= i64::MAX
}

/// A number by which instants in range are ordered as their civil fields
/// are, the year first.
pub open spec fn civil_key(v: Instant) -> int {
    ((((v.year * 100 + v.month) * 100 + v.day) * 100 + v.hour) * 100 + v.minute) * 100 + v.second
}

/// Two instants of the calendar with the same key are the same instant: the
/// key orders them totally.
pub proof fn lemma_key_decides_instant(a: Instant, b: Instant)
    requires
        valid(a),
        valid(b),
        civil_key(a) == civil_key(b),
    ensures
        a == b,
{
    lemma_same_hundreds(
        (((a.year * 100 + a.month) * 100 + a.day) * 100 + a.hour) * 100 + a.minute,
        a.second,
        (((b.year * 100 + b.month) * 100 + b.day) * 100 + b.hour) * 100 + b.minute,
        b.second,
    );
    lemma_same_hundreds(
        ((a.year * 100 + a.month) * 100 + a.day) * 100 + a.hour,
        a.minute,
        ((b.year * 100 + b.month) * 100 + b.day) * 100 + b.hour,
        b.minute,
    );
    lemma_same_hundreds(
        (a.year * 100 + a.month) * 100 + a.day,
        a.hour,
        (b.year * 100 + b.month) * 100 + b.day,
        b.hour,
    );
    lemma_same_hundreds(a.year * 100 + a.month, a.day, b.year * 100 + b.month, b.day);
    lemma_same_hundreds(a.year, a.month, b.year, b.month);
}

/// Numbers that are the same are made of the same hundreds and the same
/// rest under a hundred.
proof fn lemma_same_hundreds(q: int, r: int, p: int, t: int)
    requires
        0 <= r < 100,
        0 <= t < 100,
        q * 100 + r == p * 100 + t,
    ensures
        q == p,
        r == t,
{
}

/// The instant of the given civil fields: `Some` where they are in range
/// and name an instant of the calendar.
pub open spec fn instant_of(year: int, month: int, day: int, hour: int, minute: int, second: int)
    -> Option<Instant> {
    let seconds = utc_seconds(
        year as i32,
        month as u32,
        day as u32,
        hour as u32,
        minute as u32,
        second as u32,
    );
    let fields = Instant { year, month, day, hour, minute, second, seconds: 0 };
    if in_range(fields) && seconds is Some {
        Some(Instant { year, month, day, hour, minute, second, seconds: seconds->0 as int })
    } else {
        None
    }
}

/// The instant that lies `seconds` after 1970-01-01T00:00:00Z: `Some` where
/// its civil fields are in range and give those seconds back.
pub open spec fn instant_at(seconds: i64) -> Option<Instant> {
    match utc_civil(seconds) {
        Some((year, month, day, hour, minute, second)) => {
            let v = Instant {
                year: year as int,
                month: month as int,
                day: day as int,
                hour: hour as int,
                minute: minute as int,
                second: second as int,
                seconds: seconds as int,
            };
            if in_range(v) && utc_seconds(year, month, day, hour, minute, second) == Some(
                seconds,
            ) {
                Some(v)
            } else {
                None
            }
        },
        None => None,
    }
}

/// Reports whether six civil fields lie in the ranges that the canonical
/// text can hold.
pub fn civil_in_range(year: i32, month: u32, day: u32, hour: u32, minute: u32, second: u32) -> (r:
    bool)
    ensures
        r == in_range(
            Instant {
                year: year as int,
                month: month as int,
                day: day as int,
                hour: hour as int,
                minute: minute as int,
                second: second as int,
                seconds: 0,
            },
        ),
{
    0 <= year && year <= 9999 && 1 <= month && month <= 12 && 1 <= day && day <= 31 && hour <= 23
        && minute <= 59 && second <= 59
}

/// An optional timestamp as plain numbers.
pub open spec fn instant_view(t: Option<Timestamp>) -> Option<Instant> {
    match t {
        Some(t) => Some(t@),
        None => None,
    }
}

/// An instant of UTC between the years 0000 and 9999, at second precision.
#[derive(Clone, Copy, Debug, PartialEq, Eq)]
pub struct Timestamp {
    year: u16,
    month: u8,
    day: u8,
    hour: u8,
    minute: u8,
    second: u8,
    seconds: i64,
}

impl View for Timestamp {
    type V = Instant;

    closed spec fn view(&self) -> Instant {
        Instant {
            year: self.year as int,
            month: self.month as int,
            day: self.day as int,
            hour: self.hour as int,
            minute: self.minute as int,
            second: self.second as int,
            seconds: self.seconds as int,
        }
    }
}

impl Timestamp {
    /// Every timestamp is an instant of the calendar.
    #[verifier::type_invariant]
    spec fn well_formed(self) -> bool {
        valid(self@)
    }

    /// The instant of the given civil date and time of day in UTC: `Some`
    /// where the fields are in range and name an instant of the calendar.
    pub fn from_civil(year: u16, month: u8, day: u8, hour: u8, minute: u8, second: u8) -> (r:
        Option<Timestamp>)
        ensures
            instant_view(r) == instant_of(
                year as int,
                month as int,
                day as int,
                hour as int,
                minute as int,
                second as int,
            ),
    {
        if !civil_in_range(
            year as i32,
            month as u32,
            day as u32,
            hour as u32,
            minute as u32,
            second as u32,
        ) {
            return None;
        }
        match seconds_of_civil(
            year as i32,
            month as u32,
            day as u32,
            hour as u32,
            minute as u32,
            second as u32,
        ) {
            Some(seconds) => Some(Timestamp { year, month, day, hour, minute, second, seconds }),
            None => None,
        }
    }

    /// The instant that lies `seconds` after 1970-01-01T00:00:00Z: `Some`
    /// where its year is one of 0000 to 9999.
    pub fn from_seconds(seconds: i64) -> (r: Option<Timestamp>)
        ensures
            instant_view(r) == instant_at(seconds),
    {
        match civil_of_seconds(seconds) {
            None => None,
            Some((year, month, day, hour, minute, second)) => {
                if !civil_in_range(year, month, day, hour, minute, second) {
                    return None;
                }
                match seconds_of_civil(year, month, day, hour, minute, second) {
                    None => None,
                    Some(again) => {
                        if again != seconds {
                            return None;
                        }
                        Some(
                            Timestamp {
                                year: year as u16,
                                month: month as u8,
                                day: day as u8,
                                hour: hour as u8,
                                minute: minute as u8,
                                second: second as u8,
                                seconds,
                            },
                        )
                    },
                }
            },
        }
    }

    /// The year, from 0 to 9999.
    pub fn year(&self) -> (r: u16)
        ensures
            r == self@.year,
            valid(self@),
    {
        proof {
            use_type_invariant(self);
        }
        self.year
    }

    /// The month, from 1 to 12.
    pub fn month(&self) -> (r: u8)
        ensures
            r == self@.month,
            valid(self@),
    {
        proof {
            use_type_invariant(self);
        }
        self.month
    }

    /// The day of the month, from 1 to 31.
    pub fn day(&self) -> (r: u8)
        ensures
            r == self@.day,
            valid(self@),
    {
        proof {
            use_type_invariant(self);
        }
        self.day
    }

    /// The hour, from 0 to 23.
    pub fn hour(&self) -> (r: u8)
        ensures
            r == self@.hour,
            valid(self@),
    {
        proof {
            use_type_invariant(self);
        }
        self.hour
    }

    /// The minute, from 0 to 59.
    pub fn minute(&self) -> (r: u8)
        ensures
            r == self@.minute,
            valid(self@),
    {
        proof {
            use_type_invariant(self);
        }
        self.minute
    }

    /// The second, from 0 to 59.
    pub fn second(&self) -> (r: u8)
        ensures
            r == self@.second,
            valid(self@),
    {
        proof {
            use_type_invariant(self);
        }
        self.second
    }

    /// The seconds since 1970-01-01T00:00:00Z.
    pub fn timestamp(&self) -> (r: i64)
        ensures
            r == self@.seconds,
            valid(self@),
    {
        proof {
            use_type_invariant(self);
        }
        self.seconds
    }
}

/// The two decimal digits of `n`, which is under 100.
pub open spec fn two_digits(n: int) -> Seq<char> {
    seq![digit_char(n / 10), digit_char(n % 10)]
}

/// The date of `v` as `YYYY-MM-DD`.
pub open spec fn date_text(v: Instant) -> Seq<char> {
    two_digits(v.year / 100) + two_digits(v.year % 100) + seq!['-'] + two_digits(v.month)
        + seq!['-'] + two_digits(v.day)
}

/// The time of day of `v` as `HH:MM:SS`.
pub open spec fn time_text(v: Instant) -> Seq<char> {
    two_digits(v.hour) + seq![':'] + two_digits(v.minute) + seq![':'] + two_digits(v.second)
}

/// Whether two digits stand in `s` at index `i`.
pub open spec fn pair_at(s: Seq<char>, i: int) -> bool {
    0 <= i && i + 1 < s.len() && is_digit(s[i]) && is_digit(s[i + 1])
}

/// The number that the two digits in `s` at index `i` spell.
pub open spec fn pair_value(s: Seq<char>, i: int) -> int {
    digit_value(s[i]) * 10 + digit_value(s[i + 1])
}

/// Year, month and day as `s` spells them in the form `YYYY-MM-DD`; `None`
/// where `s` has another form.
pub open spec fn date_fields(s: Seq<char>) -> Option<(int, int, int)> {
    if s.len() == 10 && s[4] == '-' && s[7] == '-' && pair_at(s, 0) && pair_at(s, 2) && pair_at(
        s,
        5,
    ) && pair_at(s, 8) {
        Some((pair_value(s, 0) * 100 + pair_value(s, 2), pair_value(s, 5), pair_value(s, 8)))
    } else {
        None
    }
}

/// Hour, minute and second as `s` spells them in the form `HH:MM:SS`;
/// `None` where `s` has another form.
pub open spec fn time_fields(s: Seq<char>) -> Option<(int, int, int)> {
    if s.len() == 8 && s[2] == ':' && s[5] == ':' && pair_at(s, 0) && pair_at(s, 3) && pair_at(
        s,
        6,
    ) {
        Some((pair_value(s, 0), pair_value(s, 3), pair_value(s, 6)))
    } else {
        None
    }
}

/// The instant that a date and a time of day spell, or the part at fault:
/// the date where it has another form than `YYYY-MM-DD` or its month or day
/// is out of range, the time likewise, and both together where the calendar
/// holds no such instant.
pub open spec fn stamped(date: Seq<char>, time: Seq<char>) -> Result<Instant, SnapshotField> {
    match (date_fields(date), time_fields(time)) {
        (None, _) => Err(SnapshotField::Date),
        (Some((year, month, day)), clock) => {
            if !(1 <= month <= 12 && 1 <= day <= 31) {
                Err(SnapshotField::Date)
            } else {
                match clock {
                    None => Err(SnapshotField::Time),
                    Some((hour, minute, second)) => {
                        if !(hour <= 23 && minute <= 59 && second <= 59) {
                            Err(SnapshotField::Time)
                        } else {
                            match instant_of(year, month, day, hour, minute, second) {
                                Some(v) => Ok(v),
                                None => Err(SnapshotField::Datetime),
                            }
                        }
                    },
                }
            }
        },
    }
}

/// A timestamp or a field at fault as plain values.
pub open spec fn stamp_view(r: Result<Timestamp, SnapshotField>) -> Result<
    Instant,
    SnapshotField,
> {
    match r {
        Ok(t) => Ok(t@),
        Err(e) => Err(e),
    }
}

/// The texts of a valid instant spell that instant.
pub proof fn lemma_stamped_texts(v: Instant)
    requires
        valid(v),
    ensures
        date_text(v).len() == 10,
        time_text(v).len() == 8,
        date_fields(date_text(v)) == Some((v.year, v.month, v.day)),
        time_fields(time_text(v)) == Some((v.hour, v.minute, v.second)),
        stamped(date_text(v), time_text(v)) == Ok::<Instant, SnapshotField>(v),
{
    let d = date_text(v);
    let t = time_text(v);
    lemma_two_digits(v.year / 100);
    lemma_two_digits(v.year % 100);
    lemma_two_digits(v.month);
    lemma_two_digits(v.day);
    lemma_two_digits(v.hour);
    lemma_two_digits(v.minute);
    lemma_two_digits(v.second);
    assert(d[0] == two_digits(v.year / 100)[0] && d[1] == two_digits(v.year / 100)[1]);
    assert(d[2] == two_digits(v.year % 100)[0] && d[3] == two_digits(v.year % 100)[1]);
    assert(d[5] == two_digits(v.month)[0] && d[6] == two_digits(v.month)[1]);
    assert(d[8] == two_digits(v.day)[0] && d[9] == two_digits(v.day)[1]);
    assert(t[0] == two_digits(v.hour)[0] && t[1] == two_digits(v.hour)[1]);
    assert(t[3] == two_digits(v.minute)[0] && t[4] == two_digits(v.minute)[1]);
    assert(t[6] == two_digits(v.second)[0] && t[7] == two_digits(v.second)[1]);
    assert(pair_value(d, 0) == v.year / 100);
    assert(pair_value(d, 2) == v.year % 100);
    assert(pair_value(d, 0) * 100 + pair_value(d, 2) == v.year);
}

/// The two digits of a number under 100 are digits, and spell it.
pub proof fn lemma_two_digits(n: int)
    requires
        0 <= n <= 99,
    ensures
        two_digits(n).len() == 2,
        is_digit(two_digits(n)[0]),
        is_digit(two_digits(n)[1]),
        digit_value(two_digits(n)[0]) == n / 10,
        digit_value(two_digits(n)[1]) == n % 10,
        digit_value(two_digits(n)[0]) * 10 + digit_value(two_digits(n)[1]) == n,
{
}

/// Appends the two digits of `n` to `out`.
fn push_two(out: &mut Vec<char>, n: u8)
    requires
        n <= 99,
    ensures
        final(out)@ == old(out)@ + two_digits(n as int),
{
    out.push(char_of_digit(n / 10));
    out.push(char_of_digit(n % 10));
    assert(out@ =~= old(out)@ + two_digits(n as int));
}

/// The number that two digits in `v` at index `i` spell, where two digits
/// stand there.
fn read_pair(v: &Vec<char>, i: usize) -> (r: Option<u8>)
    requires
        i + 1 < v.len(),
    ensures
        r is Some <==> pair_at(v@, i as int),
        r is Some ==> r->0 == pair_value(v@, i as int) && r->0 <= 99,
{
    let a = v[i];
    let b = v[i + 1];
    if char_is_digit(a) && char_is_digit(b) {
        Some(value_of_digit(a) * 10 + value_of_digit(b))
    } else {
        None
    }
}

/// Reads year, month and day in `v`, which has the form `YYYY-MM-DD`.
pub fn read_date(v: &Vec<char>) -> (r: Option<(u16, u8, u8)>)
    ensures
        match r {
            Some((year, month, day)) => year <= 9999 && date_fields(v@) == Some(
                (year as int, month as int, day as int),
            ),
            None => date_fields(v@) is None,
        },
{
    if v.len() != 10 || v[4] != '-' || v[7] != '-' {
        return None;
    }
    match (read_pair(v, 0), read_pair(v, 2), read_pair(v, 5), read_pair(v, 8)) {
        (Some(century), Some(years), Some(month), Some(day)) => {
            let year: u16 = century as u16 * 100 + years as u16;
            Some((year, month, day))
        },
        _ => None,
    }
}

/// Reads hour, minute and second in `v`, which has the form `HH:MM:SS`.
pub fn read_time(v: &Vec<char>) -> (r: Option<(u8, u8, u8)>)
    ensures
        match r {
            Some((hour, minute, second)) => time_fields(v@) == Some(
                (hour as int, minute as int, second as int),
            ),
            None => time_fields(v@) is None,
        },
{
    if v.len() != 8 || v[2] != ':' || v[5] != ':' {
        return None;
    }
    match (read_pair(v, 0), read_pair(v, 3), read_pair(v, 6)) {
        (Some(hour), Some(minute), Some(second)) => Some((hour, minute, second)),
        _ => None,
    }
}

impl Timestamp {
    /// Reads an instant in a date of the form `YYYY-MM-DD` and a time of day
    /// of the form `HH:MM:SS`, or names the part at fault.
    pub fn parse(date: &Vec<char>, time: &Vec<char>) -> (r: Result<Timestamp, SnapshotField>)
        ensures
            stamp_view(r) == stamped(date@, time@),
    {
        let (year, month, day) = match read_date(date) {
            Some(fields) => fields,
            None => { return Err(SnapshotField::Date); },
        };
        if month < 1 || month > 12 || day < 1 || day > 31 {
            return Err(SnapshotField::Date);
        }
        let (hour, minute, second) = match read_time(time) {
            Some(fields) => fields,
            None => { return Err(SnapshotField::Time); },
        };
        if hour > 23 || minute > 59 || second > 59 {
            return Err(SnapshotField::Time);
        }
        match Timestamp::from_civil(year, month, day, hour, minute, second) {
            Some(t) => Ok(t),
            None => Err(SnapshotField::Datetime),
        }
    }

    /// The date as `YYYY-MM-DD`.
    pub fn date(&self) -> (r: Vec<char>)
        ensures
            r@ == date_text(self@),
            valid(self@),
    {
        proof {
            use_type_invariant(self);
        }
        let mut r: Vec<char> = Vec::new();
        push_two(&mut r, (self.year / 100) as u8);
        push_two(&mut r, (self.year % 100) as u8);
        r.push('-');
        push_two(&mut r, self.month);
        r.push('-');
        push_two(&mut r, self.day);
        assert(r@ =~= date_text(self@));
        r
    }

    /// The time of day as `HH:MM:SS`.
    pub fn time(&self) -> (r: Vec<char>)
        ensures
            r@ == time_text(self@),
            valid(self@),
    {
        proof {
            use_type_invariant(self);
        }
        let mut r: Vec<char> = Vec::new();
        push_two(&mut r, self.hour);
        r.push(':');
        push_two(&mut r, self.minute);
        r.push(':');
        push_two(&mut r, self.second);
        assert(r@ =~= time_text(self@));
        r
    }

    /// Whether this instant lies before `other`, by their civil fields.
    pub fn is_before(&self, other: &Timestamp) -> (r: bool)
        ensures
            r == (civil_key(self@) < civil_key(other@)),
    {
        proof {
            use_type_invariant(self);
            use_type_invariant(other);
        }
        if self.year != other.year {
            self.year < other.year
        } else if self.month != other.month {
            self.month < other.month
        } else if self.day != other.day {
            self.day < other.day
        } else if self.hour != other.hour {
            self.hour < other.hour
        } else if self.minute != other.minute {
            self.minute < other.minute
        } else {
            self.second < other.second
        }
    }
}

/// The two digits of numbers under 100 are the same only for the same
/// number, and stand in the order of their numbers.
pub proof fn lemma_two_digits_order(m: int, n: int)
    requires
        0 <= m <= 99,
        0 <= n <= 99,
    ensures
        two_digits(m) == two_digits(n) <==> m == n,
        m != n ==> precedes(two_digits(m), two_digits(n)) == (m < n),
{
    reveal_with_fuel(precedes, 3);
    let a = two_digits(m);
    let b = two_digits(n);
    lemma_two_digits(m);
    lemma_two_digits(n);
    if m != n {
        if a[0] == b[0] {
            assert(m / 10 == n / 10);
            assert(a[1] != b[1]);
            assert(a.drop_first()[0] == a[1]);
            assert(b.drop_first()[0] == b[1]);
            assert((a[1] < b[1]) == (m % 10 < n % 10));
        } else {
            assert((a[0] < b[0]) == (m / 10 < n / 10));
        }
    }
}

/// Two strings that start with the two digits of a number under 100 and a
/// common separator are ordered by those numbers where they differ, and by
/// what follows the separator where not.
pub proof fn lemma_group_order(m: int, n: int, separator: Seq<char>, a: Seq<char>, b: Seq<char>)
    requires
        0 <= m <= 99,
        0 <= n <= 99,
    ensures
        precedes(two_digits(m) + (separator + a), two_digits(n) + (separator + b)) == (if m == n {
            precedes(a, b)
        } else {
            m < n
        }),
{
    lemma_two_digits(m);
    lemma_two_digits(n);
    lemma_two_digits_order(m, n);
    lemma_precedes_blocks(two_digits(m), two_digits(n), separator + a, separator + b);
    lemma_precedes_blocks(separator, separator, a, b);
}

/// What follows the volume's name and the `@` in a canonical name: date,
/// time of day, and `rest`.
pub open spec fn stamp_text(v: Instant, rest: Seq<char>) -> Seq<char> {
    date_text(v) + seq!['_'] + time_text(v) + rest
}

/// The text of `v` before `rest`, group by group from the left.
spec fn grouped_text(v: Instant, rest: Seq<char>) -> Seq<char> {
    two_digits(v.year / 100) + (Seq::<char>::empty() + (two_digits(v.year % 100) + (seq!['-'] + (
    two_digits(v.month) + (seq!['-'] + (two_digits(v.day) + (seq!['_'] + (two_digits(v.hour) + (
    seq![':'] + (two_digits(v.minute) + (seq![':'] + (two_digits(v.second) + (Seq::<char>::empty()
        + rest)))))))))))))
}

/// Whether the civil fields of `a`, taken two digits at a time from the
/// left, differ first in a group that is less in `a`.
spec fn groups_before(a: Instant, b: Instant) -> bool {
    if a.year / 100 != b.year / 100 {
        a.year / 100 < b.year / 100
    } else if a.year % 100 != b.year % 100 {
        a.year % 100 < b.year % 100
    } else if a.month != b.month {
        a.month < b.month
    } else if a.day != b.day {
        a.day < b.day
    } else if a.hour != b.hour {
        a.hour < b.hour
    } else if a.minute != b.minute {
        a.minute < b.minute
    } else {
        a.second < b.second
    }
}

/// Taken group by group, the text is the same.
proof fn lemma_grouped_text(v: Instant, rest: Seq<char>)
    ensures
        grouped_text(v, rest) == stamp_text(v, rest),
{
    assert(grouped_text(v, rest) =~= stamp_text(v, rest));
}

/// The groups of two digits differ first in a lesser one exactly where the
/// key is less.
proof fn lemma_groups_before(a: Instant, b: Instant)
    requires
        in_range(a),
        in_range(b),
    ensures
        groups_before(a, b) <==> civil_key(a) < civil_key(b),
{
    let a0 = a.year / 100;
    let a1 = a.year % 100;
    let b0 = b.year / 100;
    let b1 = b.year % 100;
    assert(a.year == a0 * 100 + a1 && 0 <= a1 <= 99 && 0 <= a0 <= 99);
    assert(b.year == b0 * 100 + b1 && 0 <= b1 <= 99 && 0 <= b0 <= 99);
}

/// Before the same rest, two times of day stand in the order of hour,
/// minute and second.
proof fn lemma_time_ordered(a: Instant, b: Instant, rest: Seq<char>)
    requires
        in_range(a),
        in_range(b),
    ensures
        precedes(
            two_digits(a.hour) + (seq![':'] + (two_digits(a.minute) + (seq![':'] + (two_digits(
                a.second,
            ) + (Seq::<char>::empty() + rest))))),
            two_digits(b.hour) + (seq![':'] + (two_digits(b.minute) + (seq![':'] + (two_digits(
                b.second,
            ) + (Seq::<char>::empty() + rest))))),
        ) == (if a.hour != b.hour {
            a.hour < b.hour
        } else if a.minute != b.minute {
            a.minute < b.minute
        } else {
            a.second < b.second
        }),
{
    let colon = seq![':'];
    let none = Seq::<char>::empty();
    let a6 = two_digits(a.second) + (none + rest);
    let b6 = two_digits(b.second) + (none + rest);
    let a5 = two_digits(a.minute) + (colon + a6);
    let b5 = two_digits(b.minute) + (colon + b6);
    lemma_precedes_irreflexive(rest);
    lemma_group_order(a.second, b.second, none, rest, rest);
    lemma_group_order(a.minute, b.minute, colon, a6, b6);
    lemma_group_order(a.hour, b.hour, colon, a5, b5);
}

/// Before the same rest, the grouped texts of two instants stand in the
/// order of their groups.
proof fn lemma_groups_ordered(a: Instant, b: Instant, rest: Seq<char>)
    requires
        in_range(a),
        in_range(b),
    ensures
        precedes(grouped_text(a, rest), grouped_text(b, rest)) == groups_before(a, b),
{
    let dash = seq!['-'];
    let colon = seq![':'];
    let under = seq!['_'];
    let none = Seq::<char>::empty();
    let a4 = two_digits(a.hour) + (colon + (two_digits(a.minute) + (colon + (two_digits(a.second)
        + (none + rest)))));
    let b4 = two_digits(b.hour) + (colon + (two_digits(b.minute) + (colon + (two_digits(b.second)
        + (none + rest)))));
    let a3 = two_digits(a.day) + (under + a4);
    let b3 = two_digits(b.day) + (under + b4);
    let a2 = two_digits(a.month) + (dash + a3);
    let b2 = two_digits(b.month) + (dash + b3);
    let a1 = two_digits(a.year % 100) + (dash + a2);
    let b1 = two_digits(b.year % 100) + (dash + b2);
    lemma_time_ordered(a, b, rest);
    lemma_group_order(a.day, b.day, under, a4, b4);
    lemma_group_order(a.month, b.month, dash, a3, b3);
    lemma_group_order(a.year % 100, b.year % 100, dash, a2, b2);
    lemma_group_order(a.year / 100, b.year / 100, none, a1, b1);
}

/// Before the same rest, the texts of two instants in range stand in the
/// order of the instants' civil fields.
pub proof fn lemma_stamps_ordered(a: Instant, b: Instant, rest: Seq<char>)
    requires
        in_range(a),
        in_range(b),
    ensures
        precedes(stamp_text(a, rest), stamp_text(b, rest)) <==> civil_key(a) < civil_key(b),
{
    lemma_grouped_text(a, rest);
    lemma_grouped_text(b, rest);
    lemma_groups_ordered(a, b, rest);
    lemma_groups_before(a, b);
}

} // verus!
