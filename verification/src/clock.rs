//! Points in time, held as plain numbers, and the calendar calls behind them.
use vstd::prelude::*;
use crate::text::digit_char;

verus! {

/// An instant in UTC: whole seconds since the Unix epoch and the
/// nanoseconds within that second.
#[derive(Debug, Clone, Copy, PartialEq, Eq, Structural)]
pub struct UtcTime {
    pub secs: i64,
    pub nanos: u32,
}

/// The instant that `chrono` reads from a text as a `DateTime<Utc>`
/// (seconds, nanoseconds), or `None` where it rejects the text.
pub uninterp spec fn utc_instant_of(text: Seq<char>) -> Option<(i64, u32)>;

/// Reads `text` with `str::parse::<chrono::DateTime<chrono::Utc>>` (the
/// `FromStr` impl of `chrono`). Claimed: the result is the named reading
/// of the text, so the same text always gives the same instant.
#[verifier::external_body]
pub(crate) fn parse_utc(text: &str) -> (r: Option<UtcTime>)
    ensures
        match r {
            Some(t) => utc_instant_of(text@) == Some((t.secs, t.nanos)),
            None => utc_instant_of(text@) is None,
        },
{
    match text.parse::<chrono::DateTime<chrono::Utc>>() {
        Ok(t) => Some(UtcTime { secs: t.timestamp(), nanos: t.timestamp_subsec_nanos() }),
        Err(_) => None,
    }
}

/// The current instant, from `chrono::Utc::now`. Nothing is claimed of
/// the value: it depends on the clock.
#[verifier::external_body]
pub(crate) fn utc_now() -> (r: UtcTime) {
    let t = chrono::Utc::now();
    UtcTime { secs: t.timestamp(), nanos: t.timestamp_subsec_nanos() }
}

/// Whether `chrono::DateTime::from_timestamp` accepts an instant; where it
/// does, the text it formats is `listing_text` of the seconds.
pub uninterp spec fn listing_time_text(secs: i64, nanos: u32) -> Option<Seq<char>>;

/// Two decimal digits of a number below 100.
pub open spec fn two_digits(n: int) -> Seq<char> {
    seq![digit_char((n / 10) as nat), digit_char((n % 10) as nat)]
}

/// The (year, month, day) of the proleptic Gregorian calendar that falls
/// `days` days after 1970-01-01.
pub open spec fn civil_date(days: int) -> (int, int, int) {
    let z = days + 719468;
    let era = z / 146097;
    let doe = z - era * 146097;
    let yoe = (doe - doe / 1460 + doe / 36524 - doe / 146096) / 365;
    let doy = doe - (365 * yoe + yoe / 4 - yoe / 100);
    let mp = (5 * doy + 2) / 153;
    let d = doy - (153 * mp + 2) / 5 + 1;
    let m = if mp < 10 { mp + 3 } else { mp - 9 };
    let y = yoe + era * 400 + if m <= 2 { 1int } else { 0int };
    (y, m, d)
}

/// The date of an instant in UTC as `%D` writes it: `mm/dd/yy`, with the
/// year taken modulo 100.
pub open spec fn date_text(secs: i64) -> Seq<char> {
    let (y, m, d) = civil_date(secs / 86400);
    two_digits(m) + seq!['/'] + two_digits(d) + seq!['/'] + two_digits(y % 100)
}

/// The time of day of an instant as `%l:%M %p` writes it, after a
/// separating space: the hour on the 12-hour clock padded with a space,
/// the minute with two digits, then `AM` or `PM`.
pub open spec fn clock_face(secs: i64) -> Seq<char> {
    let s = secs % 86400;
    let h = s / 3600;
    let m = (s % 3600) / 60;
    let h12 = if h % 12 == 0 { 12 } else { h % 12 };
    seq![' ', if h12 < 10 { ' ' } else { '1' }, digit_char((h12 % 10) as nat), ':'] + two_digits(m)
        + seq![' ', if h < 12 { 'A' } else { 'P' }, 'M']
}

/// An instant in UTC as `%D %l:%M %p` writes it.
pub open spec fn listing_text(secs: i64) -> Seq<char> {
    date_text(secs) + clock_face(secs)
}

/// Writes an instant with `chrono::DateTime::from_timestamp` and
/// `format("%D %l:%M %p")`. Claimed: where `from_timestamp` accepts the
/// instant the text is `listing_text` of its seconds (chrono counts days
/// in the proleptic Gregorian calendar, `%D` is `%m/%d/%y` zero-padded with
/// the year modulo 100, `%l` is the 12-hour hour padded with a space, `%p`
/// is `AM` or `PM`); which instants it accepts is left to the name.
#[verifier::external_body]
pub(crate) fn format_listing_time(t: UtcTime) -> (r: Option<String>)
    ensures
        match r {
            Some(s) => listing_time_text(t.secs, t.nanos) == Some(s@) && s@ == listing_text(t.secs),
            None => listing_time_text(t.secs, t.nanos) is None,
        },
{
    match chrono::DateTime::<chrono::Utc>::from_timestamp(t.secs, t.nanos) {
        Some(d) => Some(d.format("%D %l:%M %p").to_string()),
        None => None,
    }
}

} // verus!
