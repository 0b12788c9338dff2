//! Points in time as text, through `chrono`.
use crate::text::digit;
use vstd::prelude::*;

verus! {

/// A Unix time in seconds as RFC 3339 text, where `chrono` can hold it.
pub uninterp spec fn rfc3339_text(secs: i64) -> Option<Seq<char>>;

/// `chrono::DateTime::from_timestamp` with no nanoseconds, and `to_rfc3339` of
/// what it returns; nothing where the time is out of its range.
#[verifier::external_body]
pub(crate) fn rfc3339(secs: i64) -> (r: Option<String>)
    ensures
        match r {
            Some(t) => rfc3339_text(secs) == Some(t@),
            None => rfc3339_text(secs) is None,
        },
{
    chrono::DateTime::from_timestamp(secs, 0).map(|t| t.to_rfc3339())
}

/// The point in time that an RFC 3339 text names: Unix seconds, and nanoseconds
/// within the second (more than a second of them in a leap second).
pub uninterp spec fn rfc3339_time(text: Seq<char>) -> Option<(i64, u32)>;

/// `chrono::DateTime::parse_from_rfc3339`, and `timestamp` and
/// `timestamp_subsec_nanos` of what it returns; nothing where it reports an error.
#[verifier::external_body]
pub(crate) fn parse_rfc3339(text: &str) -> (r: Option<(i64, u32)>)
    ensures
        r == rfc3339_time(text@),
{
    chrono::DateTime::parse_from_rfc3339(text)
        .ok()
        .map(|t| (t.timestamp(), t.timestamp_subsec_nanos()))
}

/// A point in time that `jiff` can hold: from 2 January of the year -9999 to 30
/// December of the year 9999, with less than a second of nanoseconds.
pub open spec fn is_jiff_time(secs: i64, nanos: i32) -> bool {
    &&& -377_705_023_201 <= secs <= 253_402_207_200
    &&& -999_999_999 <= nanos <= 999_999_999
    &&& secs == -377_705_023_201 ==> nanos >= 0
}

/// Whether `jiff::Timestamp::new`, which `k8s_openapi` passes on, accepts a point
/// in time: it does where the seconds and the nanoseconds are both in its range.
#[verifier::external_body]
pub(crate) fn jiff_accepts(secs: i64, nanos: i32) -> (r: bool)
    ensures
        r == is_jiff_time(secs, nanos),
{
    k8s_openapi::jiff::Timestamp::new(secs, nanos).is_ok()
}

// ---------------------------------------------------------------------------
// The time of day
// ---------------------------------------------------------------------------

/// A number below 100 in two digits.
pub open spec fn two_digits(n: int) -> Seq<char> {
    seq![digit((n / 10) as nat), digit((n % 10) as nat)]
}

/// The time of day of a point in time, in UTC, as `HH:MM:SS.mmm`. A leap second is
/// second 60.
pub open spec fn clock_text(secs: int, nanos: int) -> Seq<char> {
    let day = secs % 86400;
    let millis = nanos / 1_000_000 % 1000;
    two_digits(day / 3600) + seq![':'] + two_digits(day / 60 % 60) + seq![':'] + two_digits(
        day % 60 + nanos / 1_000_000_000,
    ) + seq!['.', digit((millis / 100) as nat)] + two_digits(millis % 100)
}

fn push_digit(s: &mut String, n: u32)
    requires
        n < 10,
    ensures
        final(s)@ == old(s)@.push(digit(n as nat)),
{
    s.push((48u8 + n as u8) as char);
}

fn push_two_digits(s: &mut String, n: u32)
    requires
        n < 100,
    ensures
        final(s)@ == old(s)@ + two_digits(n as int),
{
    let ghost before = s@;
    push_digit(s, n / 10);
    push_digit(s, n % 10);
    assert(s@ =~= before + two_digits(n as int));
}

/// The time of day of a point in time, in UTC, as `HH:MM:SS.mmm`.
pub fn clock(secs: i64, nanos: u32) -> (r: String)
    ensures
        r@ == clock_text(secs as int, nanos as int),
{
    let shifted: i128 = secs as i128 + 9_223_372_036_854_806_400;
    let day: u32 = (shifted % 86400) as u32;
    assert(day == (secs as int) % 86400);
    let millis: u32 = nanos / 1_000_000 % 1000;
    let mut s = String::new();
    push_two_digits(&mut s, day / 3600);
    s.push(':');
    push_two_digits(&mut s, day / 60 % 60);
    s.push(':');
    push_two_digits(&mut s, day % 60 + nanos / 1_000_000_000);
    s.push('.');
    push_digit(&mut s, millis / 100);
    push_two_digits(&mut s, millis % 100);
    assert(s@ =~= clock_text(secs as int, nanos as int));
    s
}

/// The whole seconds in some milliseconds, towards zero.
pub open spec fn whole_seconds(ms: int) -> int {
    if ms >= 0 {
        ms / 1000
    } else {
        -((-ms) / 1000)
    }
}

/// The whole seconds in some milliseconds, towards zero.
pub fn seconds_of(ms: i64) -> (r: i64)
    ensures
        r == whole_seconds(ms as int),
{
    ms / 1000
}

// ---------------------------------------------------------------------------
// Laws
// ---------------------------------------------------------------------------

/// The time of day reads as hours, minutes, seconds and milliseconds, whatever the day.
pub proof fn law_clock_reads_the_time_of_day(
    secs: i64,
    nanos: u32,
    r: String,
    day: int,
    h: int,
    m: int,
    s: int,
    ms: int,
)
    requires
        call_ensures(clock, (secs, nanos), r),
        0 <= h < 24,
        0 <= m < 60,
        0 <= s < 60,
        0 <= ms < 1000,
        secs == 86400 * day + 3600 * h + 60 * m + s,
        1_000_000 * ms <= nanos < 1_000_000 * (ms + 1),
    ensures
        r@ == seq![
            digit((h / 10) as nat),
            digit((h % 10) as nat),
            ':',
            digit((m / 10) as nat),
            digit((m % 10) as nat),
            ':',
            digit((s / 10) as nat),
            digit((s % 10) as nat),
            '.',
            digit((ms / 100) as nat),
            digit((ms / 10 % 10) as nat),
            digit((ms % 10) as nat),
        ],
{
    lemma_day_parts(secs as int, day, h, m, s);
    assert(nanos as int / 1_000_000 == ms);
    assert(nanos as int / 1_000_000_000 == 0);
    lemma_milli_digits(ms);
    let a = two_digits(h);
    let b = two_digits(m);
    let c = two_digits(s);
    let d = two_digits(ms % 100);
    assert(r@ == a + seq![':'] + b + seq![':'] + c + seq!['.', digit((ms / 100) as nat)] + d);
    assert(r@ =~= seq![
        a[0],
        a[1],
        ':',
        b[0],
        b[1],
        ':',
        c[0],
        c[1],
        '.',
        digit((ms / 100) as nat),
        d[0],
        d[1],
    ]);
}

proof fn lemma_day_parts(secs: int, day: int, h: int, m: int, s: int)
    requires
        0 <= h < 24,
        0 <= m < 60,
        0 <= s < 60,
        secs == 86400 * day + 3600 * h + 60 * m + s,
    ensures
        secs % 86400 / 3600 == h,
        secs % 86400 / 60 % 60 == m,
        secs % 86400 % 60 == s,
{
    let t = 3600 * h + 60 * m + s;
    assert(secs % 86400 == t);
    assert(t / 60 == 60 * h + m);
}

proof fn lemma_milli_digits(ms: int)
    requires
        0 <= ms < 1000,
    ensures
        ms % 1000 == ms,
        ms % 100 / 10 == ms / 10 % 10,
        ms % 100 % 10 == ms % 10,
{
}

/// Milliseconds make whole seconds by a thousand, towards zero from either side.
pub proof fn law_whole_seconds(ms: i64, r: i64)
    requires
        call_ensures(seconds_of, (ms,), r),
    ensures
        ms >= 0 ==> 1000 * r <= ms < 1000 * (r + 1),
        ms <= 0 ==> 1000 * (r - 1) < ms <= 1000 * r,
{
}

} // verus!
