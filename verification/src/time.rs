//! Points in time.

use vstd::prelude::*;

verus! {

/// The instant that `chrono` reads from an RFC 3339 text: seconds since the epoch and
/// nanoseconds within the second; nothing from any other text.
pub uninterp spec fn rfc3339_instant(s: Seq<char>) -> Option<(i64, u32)>;

/// Reads a time with `chrono::DateTime::parse_from_rfc3339`. The contract claims that the
/// instant depends on the text alone.
#[verifier::external_body]
pub(crate) fn parse_rfc3339(s: &str) -> (r: Option<(i64, u32)>)
    ensures
        r == rfc3339_instant(s@),
{
    match chrono::DateTime::parse_from_rfc3339(s) {
        Ok(t) => Some((t.timestamp(), t.timestamp_subsec_nanos())),
        Err(_) => None,
    }
}

/// Nanoseconds in a second.
pub const NANOS: i128 = 1_000_000_000;

/// An instant in nanoseconds since the epoch.
pub open spec fn instant_nanos(t: (i64, u32)) -> int {
    t.0 * NANOS + t.1
}

/// An instant in nanoseconds since the epoch.
pub fn nanos_of(t: (i64, u32)) -> (r: i128)
    ensures
        r == instant_nanos(t),
{
    t.0 as i128 * NANOS + t.1 as i128
}

/// Instants are counted in nanoseconds, so that a later one counts more.
pub proof fn law_later_counts_more(a: (i64, u32), b: (i64, u32))
    requires
        a.1 < NANOS && b.1 < NANOS,
    ensures
        a.0 < b.0 ==> instant_nanos(a) < instant_nanos(b),
        a.0 == b.0 ==> instant_nanos(b) - instant_nanos(a) == b.1 - a.1,
        instant_nanos((0, 0)) == 0,
{
}

} // verus!
