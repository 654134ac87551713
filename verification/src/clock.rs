//! The `clock` capability and the session timestamp.
//!
//! Reading the host clock and rendering an ISO-8601 timestamp are the two
//! places this library depends on outside code: the wall clock through
//! std, and calendar formatting through chrono. Both stand behind trusted
//! wrappers; everything that can be checked — the error mapping and the
//! range guard — is verified around them.

use vstd::prelude::*;
use crate::errors::AppError;

verus! {

/// Relies on `std::time::SystemTime::now` and
/// `SystemTime::duration_since(UNIX_EPOCH)`: the current wall-clock time as
/// whole seconds since the Unix epoch, or `None` if the clock reads before
/// the epoch. Nothing can be promised of the value, so this has no
/// contract.
#[verifier::external_body]
fn host_unix_seconds() -> (r: Option<u64>) {
    std::time::SystemTime::now().duration_since(std::time::UNIX_EPOCH).ok().map(|d| d.as_secs())
}

/// The `clock` capability: the current Unix time in whole seconds. It
/// always succeeds except under host clock failure, which maps to the
/// internal error the service reports.
pub fn clock_unix_seconds() -> (r: Result<u64, AppError>)
    ensures
        r matches Err(e) ==> e matches AppError::Internal(m) && m@
            == "get_unixtime: Failed to get system time"@,
{
    match host_unix_seconds() {
        Some(s) => Ok(s),
        None => Err(AppError::Internal("get_unixtime: Failed to get system time".to_owned())),
    }
}

/// The RFC 3339 rendering of a Unix timestamp in UTC, as chrono computes
/// it, or `None` for seconds out of chrono's representable range. The
/// rendering depends on the two arguments alone.
pub uninterp spec fn rfc3339_of(secs: int, nanos: int) -> Option<Seq<char>>;

/// Relies on chrono's `DateTime::<Utc>::from_timestamp` and `to_rfc3339`:
/// `from_timestamp` yields `None` exactly on an out-of-range timestamp,
/// else the UTC date-time of that instant, which `to_rfc3339` formats from
/// its value alone.
#[verifier::external_body]
fn rfc3339_utc(secs: i64, nanos: u32) -> (r: Option<String>)
    ensures
        r matches Some(s) ==> rfc3339_of(secs as int, nanos as int) == Some(s@),
        r is None ==> rfc3339_of(secs as int, nanos as int) is None,
{
    chrono::DateTime::<chrono::Utc>::from_timestamp(secs, nanos).map(|dt| dt.to_rfc3339())
}

/// The ISO-8601 timestamp for an execution's metadata: the given clock
/// reading formatted in UTC. Seconds beyond the signed 64-bit range (which
/// no real clock produces) and chrono's out-of-range cases yield `None`;
/// the caller substitutes its own fallback.
pub fn iso_timestamp(secs: u64, nanos: u32) -> (r: Option<String>)
    ensures
        r matches Some(s) ==> rfc3339_of(secs as int, nanos as int) == Some(s@),
        secs <= i64::MAX ==> ((r is None) <==> rfc3339_of(secs as int, nanos as int) is None),
        secs > i64::MAX ==> r is None,
{
    if secs > i64::MAX as u64 {
        None
    } else {
        rfc3339_utc(secs as i64, nanos)
    }
}

} // verus!
