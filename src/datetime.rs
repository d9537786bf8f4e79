//! Calendar timestamps and the decoder for their three text encodings.
use vstd::prelude::*;

use crate::text::{starts_with, has_prefix, contains_char};

verus! {

/// How a timestamp was written: no marker, a trailing `Z`, or a named zone.
#[derive(Debug)]
pub enum DateTimeFormat {
    Local,
    UTC,
    TimeZone(String),
}

/// Model of a `DateTimeFormat`: the zone label as characters.
pub enum FormatView {
    Local,
    UTC,
    TimeZone(Seq<char>),
}

impl View for DateTimeFormat {
    type V = FormatView;

    open spec fn view(&self) -> FormatView {
        match self {
            DateTimeFormat::Local => FormatView::Local,
            DateTimeFormat::UTC => FormatView::UTC,
            DateTimeFormat::TimeZone(label) => FormatView::TimeZone(label@),
        }
    }
}

/// A calendar timestamp as it was written; the fields are not range-checked.
#[derive(Debug)]
pub struct DateTime {
    pub format: DateTimeFormat,
    pub year: u32,
    pub month: u8,
    pub day: u8,
    pub hour: u8,
    pub minute: u8,
    pub second: u8,
}

/// Model of a `DateTime`.
pub struct DateTimeView {
    pub format: FormatView,
    pub year: u32,
    pub month: u8,
    pub day: u8,
    pub hour: u8,
    pub minute: u8,
    pub second: u8,
}

impl View for DateTime {
    type V = DateTimeView;

    open spec fn view(&self) -> DateTimeView {
        DateTimeView {
            format: self.format@,
            year: self.year,
            month: self.month,
            day: self.day,
            hour: self.hour,
            minute: self.minute,
            second: self.second,
        }
    }
}

/// The timestamp used when none was given or none could be read:
/// 1970-01-01 00:00:00 UTC.
pub open spec fn default_date_time() -> DateTimeView {
    DateTimeView { format: FormatView::UTC, year: 1970, month: 1, day: 1, hour: 0, minute: 0, second: 0 }
}

impl Default for DateTime {
    fn default() -> (r: DateTime)
        ensures
            r@ == default_date_time(),
    {
        DateTime { format: DateTimeFormat::UTC, year: 1970, month: 1, day: 1, hour: 0, minute: 0, second: 0 }
    }
}

pub open spec fn is_digit(c: char) -> bool {
    '0' <= c && c <= '9'
}

pub open spec fn digit_value(c: char) -> nat {
    (c as int - '0' as int) as nat
}

/// The number written in decimal by the digits `s`, most significant first.
pub open spec fn digits_value(s: Seq<char>) -> nat
    decreases s.len(),
{
    if s.len() == 0 {
        0
    } else {
        digits_value(s.drop_last()) * 10 + digit_value(s.last())
    }
}

pub open spec fn pow10(n: nat) -> nat
    decreases n,
{
    if n == 0 {
        1
    } else {
        10 * pow10((n - 1) as nat)
    }
}

/// `YYYYMMDDTHHMMSS`: eight digits, a `T`, six digits.
pub open spec fn is_stamp(s: Seq<char>) -> bool {
    &&& s.len() == 15
    &&& s[8] == 'T'
    &&& forall|i: int| 0 <= i < 15 && i != 8 ==> is_digit(#[trigger] s[i])
}

/// The number in the characters `from..to` of `s`.
pub open spec fn field(s: Seq<char>, from: int, to: int) -> nat {
    digits_value(s.subrange(from, to))
}

/// The timestamp that the stamp `s` writes, in the given format.
pub open spec fn stamp_view(format: FormatView, s: Seq<char>) -> DateTimeView {
    DateTimeView {
        format,
        year: field(s, 0, 4) as u32,
        month: field(s, 4, 6) as u8,
        day: field(s, 6, 8) as u8,
        hour: field(s, 9, 11) as u8,
        minute: field(s, 11, 13) as u8,
        second: field(s, 13, 15) as u8,
    }
}

/// A local time: the stamp alone.
pub open spec fn is_local(s: Seq<char>) -> bool {
    is_stamp(s)
}

/// A UTC time: the stamp and a trailing `Z`.
pub open spec fn is_utc(s: Seq<char>) -> bool {
    s.len() == 16 && is_stamp(s.take(15)) && s[15] == 'Z'
}

/// The label of `TZID=<label>:<stamp>`.
pub open spec fn zone_label(s: Seq<char>) -> Seq<char> {
    s.subrange(5, s.len() - 16)
}

/// A zoned time: `TZID=`, a label of one or more characters without a colon,
/// a colon, the stamp.
pub open spec fn is_zoned(s: Seq<char>) -> bool {
    &&& s.len() >= 22
    &&& starts_with(s, "TZID="@)
    &&& s[s.len() - 16] == ':'
    &&& is_stamp(s.skip(s.len() - 15))
    &&& !zone_label(s).contains(':')
}

/// What a start or end value decodes to; the default when it has none of the
/// three shapes.
pub open spec fn date_time_of(s: Seq<char>) -> DateTimeView {
    if is_local(s) {
        stamp_view(FormatView::Local, s)
    } else if is_utc(s) {
        stamp_view(FormatView::UTC, s.take(15))
    } else if is_zoned(s) {
        stamp_view(FormatView::TimeZone(zone_label(s)), s.skip(s.len() - 15))
    } else {
        default_date_time()
    }
}

/// Tests whether the characters `from..from + 15` of `s` form a stamp.
fn stamp_at(s: &str, from: usize) -> (r: bool)
    requires
        from + 15 <= s@.len() <= usize::MAX,
    ensures
        r == is_stamp(s@.subrange(from as int, from + 15)),
{
    let ghost t = s@.subrange(from as int, from + 15);
    let mut i: usize = 0;
    while i < 15
        invariant
            from + 15 <= s@.len() <= usize::MAX,
            t == s@.subrange(from as int, from + 15),
            i <= 15,
            i > 8 ==> t[8] == 'T',
            forall|j: int| 0 <= j < i && j != 8 ==> is_digit(#[trigger] t[j]),
        decreases 15 - i,
    {
        let c = s.get_char(from + i);
        assert(t[i as int] == c);
        if i == 8 {
            if c != 'T' {
                return false;
            }
        } else if !('0' <= c && c <= '9') {
            return false;
        }
        i = i + 1;
    }
    true
}

/// The number written by the digits `from..to` of `s`.
fn number_at(s: &str, from: usize, to: usize) -> (r: u32)
    requires
        from <= to <= s@.len(),
        to - from <= 4,
        forall|j: int| from <= j < to ==> is_digit(#[trigger] s@[j]),
    ensures
        r == digits_value(s@.subrange(from as int, to as int)),
        r < pow10((to - from) as nat),
{
    let mut v: u32 = 0;
    let mut i: usize = from;
    proof {
        reveal_with_fuel(pow10, 5);
        assert(s@.subrange(from as int, from as int) =~= Seq::<char>::empty());
    }
    while i < to
        invariant
            from <= i <= to <= s@.len(),
            to - from <= 4,
            forall|j: int| from <= j < to ==> is_digit(#[trigger] s@[j]),
            v == digits_value(s@.subrange(from as int, i as int)),
            v < pow10((i - from) as nat),
            pow10((i - from) as nat) <= 1000 || i == to,
        decreases to - i,
    {
        let c = s.get_char(i);
        assert(is_digit(s@[i as int]));
        proof {
            reveal_with_fuel(pow10, 5);
            assert(s@.subrange(from as int, i + 1).drop_last() =~= s@.subrange(from as int, i as int));
        }
        v = v * 10 + (c as u32 - '0' as u32);
        i = i + 1;
    }
    v
}

/// Reads the stamp at `from..from + 15` of `s` into a timestamp of the given format.
fn read_stamp(s: &str, from: usize, format: DateTimeFormat) -> (r: DateTime)
    requires
        from + 15 <= s@.len() <= usize::MAX,
        is_stamp(s@.subrange(from as int, from + 15)),
    ensures
        r@ == stamp_view(format@, s@.subrange(from as int, from + 15)),
{
    let ghost t = s@.subrange(from as int, from + 15);
    proof {
        reveal_with_fuel(pow10, 3);
        assert forall|j: int| from <= j < from + 15 && j != from + 8 implies is_digit(#[trigger] s@[j]) by {
            assert(t[j - from] == s@[j]);
        }
        assert(t.subrange(0, 4) =~= s@.subrange(from as int, from + 4));
        assert(t.subrange(4, 6) =~= s@.subrange(from + 4, from + 6));
        assert(t.subrange(6, 8) =~= s@.subrange(from + 6, from + 8));
        assert(t.subrange(9, 11) =~= s@.subrange(from + 9, from + 11));
        assert(t.subrange(11, 13) =~= s@.subrange(from + 11, from + 13));
        assert(t.subrange(13, 15) =~= s@.subrange(from + 13, from + 15));
    }
    DateTime {
        format,
        year: number_at(s, from, from + 4),
        month: number_at(s, from + 4, from + 6) as u8,
        day: number_at(s, from + 6, from + 8) as u8,
        hour: number_at(s, from + 9, from + 11) as u8,
        minute: number_at(s, from + 11, from + 13) as u8,
        second: number_at(s, from + 13, from + 15) as u8,
    }
}

/// Decodes the value of a start or end property: a local stamp, a UTC stamp
/// or `TZID=<label>:<stamp>`; anything else gives the default timestamp.
pub fn parse_date_time(s: &str) -> (r: DateTime)
    ensures
        r@ == date_time_of(s@),
{
    let len = s.unicode_len();
    proof {
        assert(s@.subrange(0, len as int) =~= s@);
        assert(s@.take(15) =~= s@.subrange(0, 15));
        assert(s@.skip(len - 15) =~= s@.subrange(len - 15, len as int));
    }
    if len == 15 && stamp_at(s, 0) {
        return read_stamp(s, 0, DateTimeFormat::Local);
    }
    if len == 16 && stamp_at(s, 0) && s.get_char(15) == 'Z' {
        return read_stamp(s, 0, DateTimeFormat::UTC);
    }
    if len >= 22 && has_prefix("TZID=", s) && s.get_char(len - 16) == ':' && stamp_at(s, len - 15)
        && !contains_char(s, 5, len - 16, ':') {
        let label = s.substring_char(5, len - 16).to_owned();
        return read_stamp(s, len - 15, DateTimeFormat::TimeZone(label));
    }
    DateTime::default()
}


/// A value of none of the three shapes decodes to the default timestamp.
pub proof fn lemma_malformed_is_default(s: Seq<char>)
    requires
        !is_local(s),
        !is_utc(s),
        !is_zoned(s),
    ensures
        date_time_of(s) == default_date_time(),
{
}

} // verus!
