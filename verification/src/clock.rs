//! Wall-clock facts used by the freshness rules: RFC 3339 parsing and the current time, as
//! instants of whole seconds and nanoseconds since the Unix epoch.
use vstd::prelude::*;

verus! {

/// An instant: whole seconds since the Unix epoch and the nanoseconds into that second (at or
/// past one second only during a leap second, as chrono counts it).
#[derive(Clone, Copy, Debug, PartialEq, Eq, Structural)]
pub struct UnixInstant {
    pub secs: i64,
    pub nanos: u32,
}

/// The instant in nanoseconds since the Unix epoch.
pub open spec fn instant_nanos(t: UnixInstant) -> int {
    t.secs * 1_000_000_000 + t.nanos
}

/// The instant an RFC 3339 timestamp denotes, as (seconds, nanoseconds into the second) since
/// the Unix epoch, or `None` when the text is not RFC 3339.
pub uninterp spec fn rfc3339_instant(text: Seq<char>) -> Option<(int, int)>;

pub open spec fn opt_instant_view(v: Option<UnixInstant>) -> Option<(int, int)> {
    match v {
        Some(t) => Some((t.secs as int, t.nanos as int)),
        None => None,
    }
}

/// The instant of an RFC 3339 timestamp in nanoseconds since the Unix epoch.
pub open spec fn rfc3339_unix_nanos(text: Seq<char>) -> Option<int> {
    match rfc3339_instant(text) {
        Some((s, n)) => Some(s * 1_000_000_000 + n),
        None => None,
    }
}

/// The instant of an RFC 3339 timestamp in milliseconds since the Unix epoch, counted as
/// chrono's `timestamp_millis` counts it (seconds times 1000 plus the whole milliseconds into
/// the second), or `None` when the text is not RFC 3339 or the count leaves `i64`.
pub open spec fn rfc3339_unix_millis(text: Seq<char>) -> Option<int> {
    match rfc3339_instant(text) {
        Some((s, n)) => {
            let ms = s * 1000 + n / 1_000_000;
            if i64::MIN <= ms <= i64::MAX {
                Some(ms)
            } else {
                None
            }
        },
        None => None,
    }
}

pub open spec fn opt_i64_int(v: Option<i64>) -> Option<int> {
    match v {
        Some(x) => Some(x as int),
        None => None,
    }
}

/// `chrono::DateTime::parse_from_rfc3339` followed by `timestamp` and
/// `timestamp_subsec_nanos`. The parse is named, not stated.
#[verifier::external_body]
fn rfc3339_secs_nanos(text: &str) -> (r: Option<UnixInstant>)
    ensures
        opt_instant_view(r) == rfc3339_instant(text@),
{
    chrono::DateTime::parse_from_rfc3339(text).ok().map(
        |dt| UnixInstant { secs: dt.timestamp(), nanos: dt.timestamp_subsec_nanos() },
    )
}

/// `chrono::Utc::now()` as `timestamp` and `timestamp_subsec_nanos`. The current time:
/// nothing is claimed of it.
#[verifier::external_body]
fn utc_now_instant() -> (r: UnixInstant) {
    let now = chrono::Utc::now();
    UnixInstant { secs: now.timestamp(), nanos: now.timestamp_subsec_nanos() }
}

/// The instant of an RFC 3339 timestamp.
pub fn parse_rfc3339_instant(text: &str) -> (r: Option<UnixInstant>)
    ensures
        opt_instant_view(r) == rfc3339_instant(text@),
{
    rfc3339_secs_nanos(text)
}

/// The Unix-epoch milliseconds of an RFC 3339 timestamp.
pub fn parse_rfc3339_millis(text: &str) -> (r: Option<i64>)
    ensures
        opt_i64_int(r) == rfc3339_unix_millis(text@),
{
    match rfc3339_secs_nanos(text) {
        Some(t) => {
            let ms: i128 = (t.secs as i128) * 1000 + ((t.nanos / 1_000_000) as i128);
            if (i64::MIN as i128) <= ms && ms <= (i64::MAX as i128) {
                Some(ms as i64)
            } else {
                None
            }
        },
        None => None,
    }
}

/// The current wall-clock time.
pub fn now_unix_instant() -> (r: UnixInstant) {
    utc_now_instant()
}

/// `d` nanoseconds as whole seconds, truncated toward zero (as `num_seconds` does).
pub open spec fn whole_secs_toward_zero(d_ns: int) -> int {
    if d_ns >= 0 {
        d_ns / 1_000_000_000
    } else {
        -((-d_ns) / 1_000_000_000)
    }
}

/// Whether an instant `t_ns` is younger than `max_secs` at `now_ns` (both in nanoseconds):
/// the age `now - t`, truncated toward zero to whole seconds, is below `max_secs`.
pub open spec fn age_within(t_ns: int, now_ns: int, max_secs: int) -> bool {
    whole_secs_toward_zero(now_ns - t_ns) < max_secs
}

/// Whether the instant `t` is younger than `max_secs` whole seconds at `now`.
pub fn instant_age_within(t: UnixInstant, now: UnixInstant, max_secs: i64) -> (r: bool)
    ensures
        r == age_within(instant_nanos(t), instant_nanos(now), max_secs as int),
{
    let d: i128 = ((now.secs as i128) - (t.secs as i128)) * 1_000_000_000 + ((now.nanos as i128) - (
    t.nanos as i128));
    let secs: i128 = if d >= 0 {
        d / 1_000_000_000
    } else {
        -((-d) / 1_000_000_000)
    };
    secs < max_secs as i128
}

/// Freshness of an RFC 3339 timestamp at `now`: it must parse and be younger than `max_secs`
/// whole seconds.
pub fn t_age_within(t_str: &str, now: UnixInstant, max_secs: i64) -> (r: bool)
    ensures
        r == (rfc3339_unix_nanos(t_str@) matches Some(t) && age_within(t, instant_nanos(now), max_secs as int)),
{
    match rfc3339_secs_nanos(t_str) {
        Some(t) => instant_age_within(t, now, max_secs),
        None => false,
    }
}

} // verus!
