//! Instants and the datetime normalizer. Calendar work is done by `chrono`;
//! this module holds an instant as two integers and decides which instant a
//! loosely written date stands for.

use vstd::prelude::*;

verus! {

/// An instant: whole seconds since the Unix epoch and the nanoseconds
/// within that second, as `chrono` counts them.
#[derive(Clone, Copy, Debug, PartialEq, Eq, Structural)]
pub struct Timestamp {
    pub secs: i64,
    pub nanos: u32,
}

/// The instant that `s` denotes when read as an RFC 2822 date, if it is
/// one.
pub uninterp spec fn rfc2822_instant(s: Seq<char>) -> Option<Timestamp>;

/// The instant that `s` denotes when read as an RFC 3339 date, if it is
/// one.
pub uninterp spec fn rfc3339_instant(s: Seq<char>) -> Option<Timestamp>;

/// The RFC 3339 text of `t` in UTC, where `t` lies in the range of dates
/// that can be written.
pub uninterp spec fn rfc3339_text(t: Timestamp) -> Option<Seq<char>>;

/// The whole days from `earlier` to `later`, where both lie in the range
/// of dates that can be written.
pub uninterp spec fn whole_days_between(later: Timestamp, earlier: Timestamp) -> Option<int>;

/// `chrono::Utc::now`, read through `DateTime::timestamp` and
/// `DateTime::timestamp_subsec_nanos`. Nothing is claimed of the result:
/// it is whatever the system clock says. `chrono` panics where the clock
/// stands before 1970.
#[verifier::external_body]
pub(crate) fn clock_now() -> (t: Timestamp) {
    let d = chrono::Utc::now();
    Timestamp { secs: d.timestamp(), nanos: d.timestamp_subsec_nanos() }
}

/// `chrono::DateTime::parse_from_rfc2822`, the parsed date read through
/// `timestamp` and `timestamp_subsec_nanos`. The contract only names the
/// result: the same text always gives the same instant, or none.
#[verifier::external_body]
pub(crate) fn parse_rfc2822(s: &str) -> (r: Option<Timestamp>)
    ensures
        r == rfc2822_instant(s@),
{
    match chrono::DateTime::parse_from_rfc2822(s) {
        Ok(d) => Some(Timestamp { secs: d.timestamp(), nanos: d.timestamp_subsec_nanos() }),
        Err(_) => None,
    }
}

/// `chrono::DateTime::parse_from_rfc3339`, the parsed date read through
/// `timestamp` and `timestamp_subsec_nanos`. The contract only names the
/// result.
#[verifier::external_body]
pub(crate) fn parse_rfc3339(s: &str) -> (r: Option<Timestamp>)
    ensures
        r == rfc3339_instant(s@),
{
    match chrono::DateTime::parse_from_rfc3339(s) {
        Ok(d) => Some(Timestamp { secs: d.timestamp(), nanos: d.timestamp_subsec_nanos() }),
        Err(_) => None,
    }
}

/// `chrono::DateTime::to_rfc3339` on the UTC date that
/// `DateTime::from_timestamp` makes of `t`; `None` where `from_timestamp`
/// finds `t` out of range. The contract only names the result.
#[verifier::external_body]
pub(crate) fn format_rfc3339(t: Timestamp) -> (r: Option<String>)
    ensures
        r.deep_view() == rfc3339_text(t),
{
    match chrono::DateTime::from_timestamp(t.secs, t.nanos) {
        Some(d) => Some(d.to_rfc3339()),
        None => None,
    }
}

/// `TimeDelta::num_days` of the difference of the two UTC dates that
/// `DateTime::from_timestamp` makes of `later` and `earlier`; `None` where
/// one of them is out of range. The contract only names the result.
#[verifier::external_body]
pub(crate) fn days_between(later: Timestamp, earlier: Timestamp) -> (r: Option<i64>)
    ensures
        match r {
            Some(d) => whole_days_between(later, earlier) == Some(d as int),
            None => whole_days_between(later, earlier) is None,
        },
{
    let a = chrono::DateTime::from_timestamp(later.secs, later.nanos);
    let b = chrono::DateTime::from_timestamp(earlier.secs, earlier.nanos);
    match (a, b) {
        (Some(a), Some(b)) => Some(a.signed_duration_since(b).num_days()),
        _ => None,
    }
}

/// The text under which `t` is stored: its RFC 3339 form in UTC, and the
/// empty text for an instant outside the range of dates that can be
/// written.
pub open spec fn stored_text(t: Timestamp) -> Seq<char> {
    match rfc3339_text(t) {
        Some(s) => s,
        None => Seq::empty(),
    }
}

/// The instant that `date` says: what it says as an RFC 2822 date, else
/// what it says as an RFC 3339 date; none where it is empty or says
/// neither.
pub open spec fn readable_instant(date: Seq<char>) -> Option<Timestamp> {
    if date.len() == 0 {
        None
    } else {
        match rfc2822_instant(date) {
            Some(t) => Some(t),
            None => rfc3339_instant(date),
        }
    }
}

/// The instant that a loosely written date stands for: the one it says,
/// or `now` where it says none.
pub open spec fn instant_of(date: Seq<char>, now: Timestamp) -> Timestamp {
    match readable_instant(date) {
        Some(t) => t,
        None => now,
    }
}

/// Whether `date` can be read as a date at all.
pub open spec fn is_readable_date(date: Seq<char>) -> bool {
    readable_instant(date) is Some
}

/// The canonical timestamp for `date`, with `now` standing in where `date`
/// is empty or cannot be read.
pub open spec fn normalized_datetime(date: Seq<char>, now: Timestamp) -> Seq<char> {
    stored_text(instant_of(date, now))
}

/// The stored form of `t`.
pub fn timestamp_text(t: Timestamp) -> (r: String)
    ensures
        r@ == stored_text(t),
{
    match format_rfc3339(t) {
        Some(s) => s,
        None => String::new(),
    }
}

/// Reads a loosely written date, trying RFC 2822 before RFC 3339.
pub fn read_instant(date: &str) -> (r: Option<Timestamp>)
    ensures
        r == readable_instant(date@),
{
    if date.is_empty() {
        return None;
    }
    match parse_rfc2822(date) {
        Some(t) => Some(t),
        None => parse_rfc3339(date),
    }
}

/// Normalizes `date` against a given present instant. Never fails: where
/// `date` is empty or cannot be read, `now` takes its place.
pub fn normalize_datetime_at(date: &str, now: Timestamp) -> (r: String)
    ensures
        r@ == normalized_datetime(date@, now),
{
    match read_instant(date) {
        Some(t) => timestamp_text(t),
        None => timestamp_text(now),
    }
}

/// Normalizes `date`, reading the clock where `date` is empty or cannot be
/// read. A readable date gives the same text on every call.
pub fn normalize_datetime(date: &str) -> (r: String)
    ensures
        exists|now: Timestamp| r@ == normalized_datetime(date@, now),
        is_readable_date(date@) ==> forall|now: Timestamp|
            r@ == normalized_datetime(date@, now),
{
    match read_instant(date) {
        Some(t) => {
            let r = timestamp_text(t);
            assert(r@ == normalized_datetime(date@, t));
            r
        },
        None => {
            let now = clock_now();
            let r = timestamp_text(now);
            assert(r@ == normalized_datetime(date@, now));
            r
        },
    }
}

} // verus!
