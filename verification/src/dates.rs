//! Calendar dates, computed by chrono.

use vstd::prelude::*;

verus! {

/// The UTC calendar date of the moment `secs` seconds after the Unix epoch,
/// as chrono writes it with the pattern `%Y-%m-%d`, or `None` where chrono
/// has no date for that moment.
pub uninterp spec fn chrono_utc_ymd(secs: i64) -> Option<Seq<char>>;

/// The UTC calendar date, written `YYYY-MM-DD`, of the moment `secs`
/// seconds after the Unix epoch.
///
/// Trusted: calls chrono's `DateTime::from_timestamp(secs, 0)`, then
/// formats the result with `%Y-%m-%d`. Its contract claims that the result
/// is a function of `secs` (named `chrono_utc_ymd`), and that there is a
/// date for every moment within 8 * 10^12 seconds of the epoch (about
/// 253,000 years either way, inside chrono's range of January 1, 262144 BCE
/// to December 31, 262142 CE). Which date chrono computes, and the exact
/// bounds of its range, are left unsaid.
#[verifier::external_body]
pub(crate) fn utc_date_ymd(secs: i64) -> (res: Option<String>)
    ensures
        res.deep_view() == chrono_utc_ymd(secs),
        -8_000_000_000_000 <= secs <= 8_000_000_000_000 ==> res is Some,
{
    match chrono::DateTime::from_timestamp(secs, 0) {
        Some(dt) => Some(dt.format("%Y-%m-%d").to_string()),
        None => None,
    }
}

} // verus!
