//! Instants in UTC, held as seconds and nanoseconds since the Unix epoch.
//!
//! `chrono` does the calendar work (formatting, parsing, range checks);
//! the library compares and stores instants as plain numbers.

use chrono::{DateTime, TimeDelta, Utc};
use vstd::prelude::*;

verus! {

/// An instant: whole seconds since 1970-01-01 00:00:00 UTC and the
/// nanoseconds past that second.
#[derive(Clone, Copy, Debug, PartialEq, Eq, Structural)]
pub struct Timestamp {
    pub secs: i64,
    pub nanos: u32,
}

/// `a` is strictly earlier than `b`.
pub open spec fn ts_lt(a: Timestamp, b: Timestamp) -> bool {
    a.secs < b.secs || (a.secs == b.secs && a.nanos < b.nanos)
}

impl Timestamp {
    /// Whether `self` is strictly later than `other`.
    pub fn is_after(&self, other: &Timestamp) -> (r: bool)
        ensures
            r == ts_lt(*other, *self),
    {
        self.secs > other.secs || (self.secs == other.secs && self.nanos > other.nanos)
    }
}

/// The first second chrono holds: -262143-01-01T00:00:00 UTC.
pub const MIN_TIMESTAMP_SECS: i64 = -8_334_601_228_800;

/// The last second chrono holds: 262142-12-31T23:59:59 UTC.
pub const MAX_TIMESTAMP_SECS: i64 = 8_210_266_876_799;

/// Whether chrono holds this instant as a `DateTime<Utc>`: what
/// `DateTime::from_timestamp(secs, nanos)` accepts. The seconds lie within
/// chrono's calendar (years -262143 to 262142), and the nanoseconds are
/// below 10^9, or below 2 * 10^9 in the last second of a minute (a leap
/// second).
pub open spec fn representable(t: Timestamp) -> bool {
    &&& MIN_TIMESTAMP_SECS <= t.secs <= MAX_TIMESTAMP_SECS
    &&& (t.nanos < 1_000_000_000 || (t.nanos < 2_000_000_000 && t.secs % 60 == 59))
}

/// `DateTime::from_timestamp(secs, nanos)`: `Some` of the same instant
/// exactly when chrono can hold it (chrono's source: the day must be a date
/// of years -262143 to 262142, and `NaiveTime::from_num_seconds_from_midnight_opt`
/// takes nanoseconds below 10^9, or below 2 * 10^9 when the second of the
/// minute is 59).
#[verifier::external_body]
pub(crate) fn instant_from_parts(secs: i64, nanos: u32) -> (r: Option<Timestamp>)
    ensures
        (r is Some) <==> representable((Timestamp { secs, nanos })),
        r matches Some(t) ==> t == (Timestamp { secs, nanos }),
{
    DateTime::from_timestamp(secs, nanos).map(|_| Timestamp { secs, nanos })
}

/// `Utc::now()`: the current instant. chrono builds it from the system clock
/// with `DateTime::from_timestamp`, so it is representable, not before the
/// epoch, and has fewer than 10^9 nanoseconds. Which instant comes back is
/// not stated.
#[verifier::external_body]
pub(crate) fn utc_now() -> (t: Timestamp)
    ensures
        representable(t),
        t.secs >= 0,
        t.nanos < 1_000_000_000,
{
    let now = Utc::now();
    Timestamp { secs: now.timestamp(), nanos: now.timestamp_subsec_nanos() }
}

/// The text `DateTime::to_rfc3339` writes for an instant.
pub uninterp spec fn rfc3339_text(t: Timestamp) -> Seq<char>;

/// An instant of the years 0 to 9999: chrono writes its year with four
/// digits, and reads its texts back exactly (a leap second included, which
/// it writes as second 60).
pub open spec fn four_digit_year(t: Timestamp) -> bool {
    -62_167_219_200 <= t.secs <= 253_402_300_799
}

/// The text holds no `;`.
pub open spec fn has_no_semicolon(s: Seq<char>) -> bool {
    forall|k: int| 0 <= k < s.len() ==> s[k] != ';'
}

/// `DateTime::<Utc>::to_rfc3339`: writes the instant in RFC 3339 form; its
/// result is named by `rfc3339_text`. chrono's writer uses only digits,
/// signs, `-`, `T`, `:` and `.` (no `;`); and for an instant of the years 0
/// to 9999, `parse_from_rfc3339` reads the text
/// (`YYYY-MM-DDTHH:MM:SS[.fraction]+00:00`, a leap second as second 60) back
/// to the same instant.
#[verifier::external_body]
pub(crate) fn write_rfc3339(t: &Timestamp) -> (r: String)
    requires
        representable(*t),
    ensures
        r@ == rfc3339_text(*t),
        has_no_semicolon(r@),
        four_digit_year(*t) ==> rfc3339_value(r@) == Some(*t),
{
    DateTime::from_timestamp(t.secs, t.nanos).unwrap().to_rfc3339()
}

/// The instant `DateTime::parse_from_rfc3339` reads from a text, in UTC.
pub uninterp spec fn rfc3339_value(s: Seq<char>) -> Option<Timestamp>;

/// `DateTime::parse_from_rfc3339` followed by `to_utc`: reads an RFC 3339
/// text; its result is named by `rfc3339_value`. What it gives back is a
/// `DateTime`, so it is representable.
#[verifier::external_body]
pub(crate) fn read_rfc3339(s: &str) -> (r: Option<Timestamp>)
    ensures
        r == rfc3339_value(s@),
        r matches Some(t) ==> representable(t),
{
    DateTime::parse_from_rfc3339(s).ok().map(|d| {
        let u = d.to_utc();
        Timestamp { secs: u.timestamp(), nanos: u.timestamp_subsec_nanos() }
    })
}

/// The text `Display` writes for a `DateTime<Utc>` (`2024-01-02 03:04:05 UTC`).
pub uninterp spec fn display_text(t: Timestamp) -> Seq<char>;

/// `<DateTime<Utc> as Display>::fmt` through `to_string`; its result is named
/// by `display_text`. For an instant of the years 0 to 9999, the text
/// (`YYYY-MM-DD HH:MM:SS[.fraction] UTC`, a leap second as second 60) is one
/// that `FromStr` reads back to the same instant.
#[verifier::external_body]
pub(crate) fn write_display(t: &Timestamp) -> (r: String)
    requires
        representable(*t),
    ensures
        r@ == display_text(*t),
        four_digit_year(*t) ==> display_value(r@) == Some(*t),
{
    DateTime::from_timestamp(t.secs, t.nanos).unwrap().to_string()
}

/// The instant `<DateTime<Utc> as FromStr>::from_str` reads from a text.
pub uninterp spec fn display_value(s: Seq<char>) -> Option<Timestamp>;

/// `<DateTime<Utc> as FromStr>::from_str`: reads the relaxed RFC 3339 form
/// (which includes what `Display` writes); its result is named by
/// `display_value`, and a `DateTime` is representable. On failure it gives
/// chrono's message, whose text is not stated.
#[verifier::external_body]
pub(crate) fn read_display(s: &str) -> (r: Result<Timestamp, String>)
    ensures
        (r is Ok) == (display_value(s@) is Some),
        r matches Ok(t) ==> display_value(s@) == Some(t) && representable(t),
{
    match s.parse::<DateTime<Utc>>() {
        Ok(u) => Ok(Timestamp { secs: u.timestamp(), nanos: u.timestamp_subsec_nanos() }),
        Err(e) => Err(e.to_string()),
    }
}

/// The instant `now - TimeDelta::seconds(secs as i64)` gives, or `None`
/// where chrono panics (a delta beyond `TimeDelta`'s bounds, or a result
/// out of range).
pub uninterp spec fn seconds_before_value(now: Timestamp, secs: u64) -> Option<Timestamp>;

/// The most seconds a `TimeDelta` holds (`i64::MAX / 1000`).
pub open spec fn max_delta_secs() -> int {
    9_223_372_036_854_775
}

/// The instant `secs` whole seconds before `now`, with the same nanoseconds.
pub open spec fn seconds_earlier(now: Timestamp, secs: u64) -> Timestamp {
    Timestamp { secs: (now.secs - secs) as i64, nanos: now.nanos }
}

/// `TimeDelta::try_seconds` and `DateTime::checked_sub_signed`: the instant
/// `secs` seconds before `now`; its result is named by `seconds_before_value`.
/// chrono's source makes it plain for a delta `TimeDelta` holds and an
/// instant that is not a leap second: `secs` whole seconds earlier, same
/// nanoseconds, `None` exactly when chrono cannot hold that instant; and
/// `None` for a delta beyond `TimeDelta`'s range that fits in `i64`. Not
/// stated: leap-second instants, and `secs` above `i64::MAX`, which the
/// conversion to `i64` wraps.
#[verifier::external_body]
pub(crate) fn seconds_before(now: &Timestamp, secs: u64) -> (r: Option<Timestamp>)
    requires
        representable(*now),
    ensures
        r == seconds_before_value(*now, secs),
        secs <= max_delta_secs() && now.nanos < 1_000_000_000 ==> r == if representable(seconds_earlier(*now, secs)) {
            Some(seconds_earlier(*now, secs))
        } else {
            None::<Timestamp>
        },
        max_delta_secs() < secs <= i64::MAX ==> r is None,
{
    let delta = TimeDelta::try_seconds(secs as i64)?;
    let d = DateTime::from_timestamp(now.secs, now.nanos)?.checked_sub_signed(delta)?;
    Some(Timestamp { secs: d.timestamp(), nanos: d.timestamp_subsec_nanos() })
}

/// Whether chrono holds this instant (see `representable`).
pub fn is_representable(t: &Timestamp) -> (r: bool)
    ensures
        r == representable(*t),
{
    match instant_from_parts(t.secs, t.nanos) {
        Some(_) => true,
        None => false,
    }
}

/// The current instant (which one is not stated; it is representable).
pub fn now() -> (t: Timestamp)
    ensures
        representable(t),
{
    utc_now()
}

/// The Unix epoch, 1970-01-01 00:00:00 UTC.
pub fn unix_epoch() -> (t: Timestamp)
    ensures
        t == (Timestamp { secs: 0, nanos: 0 }),
        representable(t),
{
    match instant_from_parts(0, 0) {
        Some(t) => t,
        None => Timestamp { secs: 0, nanos: 0 },
    }
}

} // verus!
