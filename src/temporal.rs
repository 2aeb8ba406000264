//! Dates, times and identifiers as plain values, and their canonical text:
//! `YYYY-MM-DD`, `HH:MM:SS`, `YYYY-MM-DDTHH:MM:SS`, RFC 3339 for zoned
//! timestamps and lowercase hyphenated UUIDs.

use vstd::prelude::*;

verus! {

/// A calendar date.
#[derive(Clone, Copy, Debug, PartialEq, Eq, Structural)]
pub struct DateValue {
    pub year: i32,
    pub month: u8,
    pub day: u8,
}

/// A time of day, to the second.
#[derive(Clone, Copy, Debug, PartialEq, Eq, Structural)]
pub struct TimeValue {
    pub hour: u8,
    pub minute: u8,
    pub second: u8,
}

/// A local date and time with a fraction of a second and an offset from UTC.
#[derive(Clone, Copy, Debug, PartialEq, Eq, Structural)]
pub struct ZonedValue {
    pub date: DateValue,
    pub time: TimeValue,
    pub nanosecond: u32,
    pub offset_seconds: i32,
}

impl DateValue {
    /// Whether each field is in the range its text has room for.
    pub open spec fn wf(&self) -> bool {
        -9999 <= self.year <= 9999 && 1 <= self.month <= 12 && 1 <= self.day <= 31
    }
}

impl TimeValue {
    /// Whether each field is in its range.
    pub open spec fn wf(&self) -> bool {
        self.hour < 24 && self.minute < 60 && self.second < 60
    }
}

/// The decimal digit `d`.
pub open spec fn digit_char(d: int) -> char {
    if d == 0 {
        '0'
    } else if d == 1 {
        '1'
    } else if d == 2 {
        '2'
    } else if d == 3 {
        '3'
    } else if d == 4 {
        '4'
    } else if d == 5 {
        '5'
    } else if d == 6 {
        '6'
    } else if d == 7 {
        '7'
    } else if d == 8 {
        '8'
    } else {
        '9'
    }
}

/// Two decimal digits of `n`, zero-padded.
pub open spec fn pad2(n: int) -> Seq<char> {
    seq![digit_char(n / 10), digit_char(n % 10)]
}

/// Four decimal digits of `n`, zero-padded.
pub open spec fn pad4(n: int) -> Seq<char> {
    seq![digit_char(n / 1000), digit_char((n / 100) % 10), digit_char((n / 10) % 10), digit_char(n % 10)]
}

/// A year as four digits, after a minus sign where it is negative.
pub open spec fn year_text(y: int) -> Seq<char> {
    if y < 0 {
        seq!['-'] + pad4(-y)
    } else {
        pad4(y)
    }
}

/// `YYYY-MM-DD`.
pub open spec fn date_text(d: DateValue) -> Seq<char> {
    year_text(d.year as int) + seq!['-'] + pad2(d.month as int) + seq!['-'] + pad2(d.day as int)
}

/// `HH:MM:SS`.
pub open spec fn time_text(t: TimeValue) -> Seq<char> {
    pad2(t.hour as int) + seq![':'] + pad2(t.minute as int) + seq![':'] + pad2(t.second as int)
}

/// `YYYY-MM-DDTHH:MM:SS`.
pub open spec fn datetime_text(d: DateValue, t: TimeValue) -> Seq<char> {
    date_text(d) + seq!['T'] + time_text(t)
}

/// Whether `c` is one of the characters that [`push_char`] writes.
pub open spec fn pushable(c: char) -> bool {
    c == '-' || c == ':' || c == 'T' || c == 'x' || c == '0' || c == '1' || c == '2' || c == '3'
        || c == '4' || c == '5' || c == '6' || c == '7' || c == '8' || c == '9' || c == 'a' || c == 'b'
        || c == 'c' || c == 'd' || c == 'e' || c == 'f'
}

pub(crate) fn push_char(s: &mut String, c: char)
    requires
        pushable(c),
    ensures
        final(s)@ == old(s)@.push(c),
{
    let t: &str = if c == '-' {
        proof { reveal_strlit("-"); }
        "-"
    } else if c == ':' {
        proof { reveal_strlit(":"); }
        ":"
    } else if c == 'T' {
        proof { reveal_strlit("T"); }
        "T"
    } else if c == 'x' {
        proof { reveal_strlit("x"); }
        "x"
    } else if c == 'a' {
        proof { reveal_strlit("a"); }
        "a"
    } else if c == 'b' {
        proof { reveal_strlit("b"); }
        "b"
    } else if c == 'c' {
        proof { reveal_strlit("c"); }
        "c"
    } else if c == 'd' {
        proof { reveal_strlit("d"); }
        "d"
    } else if c == 'e' {
        proof { reveal_strlit("e"); }
        "e"
    } else if c == 'f' {
        proof { reveal_strlit("f"); }
        "f"
    } else if c == '0' {
        proof { reveal_strlit("0"); }
        "0"
    } else if c == '1' {
        proof { reveal_strlit("1"); }
        "1"
    } else if c == '2' {
        proof { reveal_strlit("2"); }
        "2"
    } else if c == '3' {
        proof { reveal_strlit("3"); }
        "3"
    } else if c == '4' {
        proof { reveal_strlit("4"); }
        "4"
    } else if c == '5' {
        proof { reveal_strlit("5"); }
        "5"
    } else if c == '6' {
        proof { reveal_strlit("6"); }
        "6"
    } else if c == '7' {
        proof { reveal_strlit("7"); }
        "7"
    } else if c == '8' {
        proof { reveal_strlit("8"); }
        "8"
    } else {
        proof { reveal_strlit("9"); }
        "9"
    };
    assert(t@ =~= seq![c]);
    s.append(t);
}

pub(crate) fn digit(d: u32) -> (c: char)
    requires
        d < 10,
    ensures
        c == digit_char(d as int),
{
    if d == 0 {
        '0'
    } else if d == 1 {
        '1'
    } else if d == 2 {
        '2'
    } else if d == 3 {
        '3'
    } else if d == 4 {
        '4'
    } else if d == 5 {
        '5'
    } else if d == 6 {
        '6'
    } else if d == 7 {
        '7'
    } else if d == 8 {
        '8'
    } else {
        '9'
    }
}

fn push_pad2(s: &mut String, n: u32)
    requires
        n < 100,
    ensures
        final(s)@ == old(s)@ + pad2(n as int),
{
    push_char(s, digit(n / 10));
    push_char(s, digit(n % 10));
    assert(s@ =~= old(s)@ + pad2(n as int));
}

fn push_pad4(s: &mut String, n: u32)
    requires
        n < 10000,
    ensures
        final(s)@ == old(s)@ + pad4(n as int),
{
    push_char(s, digit(n / 1000));
    push_char(s, digit((n / 100) % 10));
    push_char(s, digit((n / 10) % 10));
    push_char(s, digit(n % 10));
    assert(s@ =~= old(s)@ + pad4(n as int));
}

fn push_date(s: &mut String, d: DateValue)
    requires
        d.wf(),
    ensures
        final(s)@ == old(s)@ + date_text(d),
{
    if d.year < 0 {
        push_char(s, '-');
        push_pad4(s, (-d.year) as u32);
    } else {
        push_pad4(s, d.year as u32);
    }
    push_char(s, '-');
    push_pad2(s, d.month as u32);
    push_char(s, '-');
    push_pad2(s, d.day as u32);
    assert(s@ =~= old(s)@ + date_text(d));
}

fn push_time(s: &mut String, t: TimeValue)
    requires
        t.wf(),
    ensures
        final(s)@ == old(s)@ + time_text(t),
{
    push_pad2(s, t.hour as u32);
    push_char(s, ':');
    push_pad2(s, t.minute as u32);
    push_char(s, ':');
    push_pad2(s, t.second as u32);
    assert(s@ =~= old(s)@ + time_text(t));
}

/// The text `YYYY-MM-DD` of a date.
pub fn format_date(d: DateValue) -> (r: String)
    requires
        d.wf(),
    ensures
        r@ == date_text(d),
{
    let mut s = String::new();
    push_date(&mut s, d);
    assert(s@ =~= date_text(d));
    s
}

/// The text `HH:MM:SS` of a time of day.
pub fn format_time(t: TimeValue) -> (r: String)
    requires
        t.wf(),
    ensures
        r@ == time_text(t),
{
    let mut s = String::new();
    push_time(&mut s, t);
    assert(s@ =~= time_text(t));
    s
}

/// The text `YYYY-MM-DDTHH:MM:SS` of a date and time without zone.
pub fn format_datetime(d: DateValue, t: TimeValue) -> (r: String)
    requires
        d.wf(),
        t.wf(),
    ensures
        r@ == datetime_text(d, t),
{
    let mut s = String::new();
    push_date(&mut s, d);
    push_char(&mut s, 'T');
    push_time(&mut s, t);
    assert(s@ =~= datetime_text(d, t));
    s
}

/// What the RFC 3339 formatting of the time crate gives for a zoned
/// timestamp with these components; `None` where it refuses them.
pub uninterp spec fn rfc3339_of(
    year: i32,
    month: u8,
    day: u8,
    hour: u8,
    minute: u8,
    second: u8,
    nanosecond: u32,
    offset_seconds: i32,
) -> Option<Seq<char>>;

/// Relies on time's `OffsetDateTime::format` with `well_known::Rfc3339`
/// (building the value with `Date::from_calendar_date`,
/// `Time::from_hms_nano` and `UtcOffset::from_whole_seconds`).
#[verifier::external_body]
pub(crate) fn rfc3339(z: ZonedValue) -> (r: Option<String>)
    ensures
        match rfc3339_of(z.date.year, z.date.month, z.date.day, z.time.hour, z.time.minute, z.time.second, z.nanosecond, z.offset_seconds) {
            Some(s) => r is Some && r->Some_0@ == s,
            None => r is None,
        },
{
    let month = time::Month::try_from(z.date.month).ok()?;
    let date = time::Date::from_calendar_date(z.date.year, month, z.date.day).ok()?;
    let t = time::Time::from_hms_nano(z.time.hour, z.time.minute, z.time.second, z.nanosecond).ok()?;
    let offset = time::UtcOffset::from_whole_seconds(z.offset_seconds).ok()?;
    let zoned = time::PrimitiveDateTime::new(date, t).assume_offset(offset);
    zoned.format(&time::format_description::well_known::Rfc3339).ok()
}

/// The RFC 3339 text of a zoned timestamp, where the time crate accepts it.
pub open spec fn zoned_text(z: ZonedValue) -> Option<Seq<char>> {
    rfc3339_of(z.date.year, z.date.month, z.date.day, z.time.hour, z.time.minute, z.time.second, z.nanosecond, z.offset_seconds)
}

/// The RFC 3339 text of a zoned timestamp.
pub fn format_zoned(z: ZonedValue) -> (r: Option<String>)
    ensures
        match zoned_text(z) {
            Some(s) => r is Some && r->Some_0@ == s,
            None => r is None,
        },
{
    rfc3339(z)
}

/// `16` to the power `k`.
pub open spec fn pow16(k: nat) -> nat
    decreases k,
{
    if k == 0 {
        1
    } else {
        16 * pow16((k - 1) as nat)
    }
}

/// The lowercase hexadecimal digit `d`.
pub open spec fn hex_char(d: int) -> char {
    if d < 10 {
        digit_char(d)
    } else if d == 10 {
        'a'
    } else if d == 11 {
        'b'
    } else if d == 12 {
        'c'
    } else if d == 13 {
        'd'
    } else if d == 14 {
        'e'
    } else {
        'f'
    }
}

/// The lowercase hexadecimal digit `d`.
pub(crate) fn hex_digit(d: u32) -> (c: char)
    requires
        d < 16,
    ensures
        c == hex_char(d as int),
        pushable(c),
{
    if d < 10 {
        digit(d)
    } else if d == 10 {
        'a'
    } else if d == 11 {
        'b'
    } else if d == 12 {
        'c'
    } else if d == 13 {
        'd'
    } else if d == 14 {
        'e'
    } else {
        'f'
    }
}

/// Number of hyphens before position `i` of a hyphenated UUID.
pub open spec fn hyphens_before(i: int) -> int {
    if i < 8 {
        0
    } else if i < 13 {
        1
    } else if i < 18 {
        2
    } else if i < 23 {
        3
    } else {
        4
    }
}

/// A 128-bit UUID as 32 lowercase hexadecimal digits, most significant
/// first, grouped 8-4-4-4-12 by hyphens.
pub open spec fn uuid_text(v: u128) -> Seq<char> {
    Seq::new(
        36,
        |i: int|
            if i == 8 || i == 13 || i == 18 || i == 23 {
                '-'
            } else {
                hex_char(((v as nat / pow16((31 - (i - hyphens_before(i))) as nat)) % 16) as int)
            },
    )
}

/// Relies on uuid's `Uuid::from_u128` and `as_hyphenated`: the lowercase
/// hyphenated text of the UUID.
#[verifier::external_body]
pub(crate) fn format_uuid(v: u128) -> (r: String)
    ensures
        r@ == uuid_text(v),
{
    uuid::Uuid::from_u128(v).as_hyphenated().to_string()
}

} // verus!
