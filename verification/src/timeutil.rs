//! Combining a raw timestamp and zone offset into a valid instant.
//!
//! The calendar itself belongs to chrono; the library asks it whether a raw
//! value is representable and falls back deterministically to the epoch or
//! to the zero offset when it is not.

use vstd::prelude::*;
use crate::record::Timestamp;

verus! {

/// Relies on chrono's `TimeZone::timestamp_opt` for `Utc` (built on
/// `DateTime::from_timestamp`): every whole-second timestamp in `[0, 2^31)`
/// maps to a single valid instant.
#[verifier::external_body]
fn epoch_secs_valid(secs: i64) -> (r: bool)
    ensures
        0 <= secs < 0x8000_0000 ==> r,
{
    <chrono::Utc as chrono::TimeZone>::timestamp_opt(&chrono::Utc, secs, 0).single().is_some()
}

/// Relies on chrono's `FixedOffset::east_opt`: it returns `Some` exactly
/// when `-86400 < secs < 86400`.
#[verifier::external_body]
fn offset_secs_valid(secs: i32) -> (r: bool)
    ensures
        r == (-86400 < secs && secs < 86400),
{
    chrono::FixedOffset::east_opt(secs).is_some()
}

/// Resolve a raw timestamp/offset pair to a valid instant: a combination the
/// calendar cannot represent falls back to the epoch or the zero offset
/// rather than failing the record.
pub fn resolve_timestamp(secs: i64, offset_secs: i32) -> (r: Timestamp)
    ensures
        r.secs == secs || r.secs == 0,
        r.offset_secs == offset_secs || r.offset_secs == 0,
        0 <= secs < 0x8000_0000 ==> r.secs == secs,
        -86400 < offset_secs < 86400 ==> r.offset_secs == offset_secs,
        -86400 < r.offset_secs < 86400,
{
    let s: i64 = if epoch_secs_valid(secs) {
        secs
    } else {
        0
    };
    let o: i32 = if offset_secs_valid(offset_secs) {
        offset_secs
    } else {
        0
    };
    Timestamp { secs: s, offset_secs: o }
}

} // verus!
