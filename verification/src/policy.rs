//! The caching policy and the configuration year range: pure functions
//! from request kind and record state to a TTL hint, and the year list a
//! configuration response advertises.

use vstd::prelude::*;

verus! {

pub const TTL_ONE_MINUTE: i32 = 60;
pub const TTL_ONE_DAY: i32 = 86400;

/// Upstream fetch cache: successful responses for six hours.
pub const TTL_UPSTREAM_OK: i32 = 21600;

/// Upstream fetch cache: a 404 for one hour, so repeated misses do not
/// repeatedly hit the origin.
pub const TTL_UPSTREAM_MISS: i32 = 3600;

/// Finished titles for thirty days.
pub const TTL_FINISHED: i32 = 2592000;

/// Ongoing titles for seven days.
pub const TTL_ONGOING: i32 = 604800;

/// Records resolved through the Jikan path for six hours: that source is
/// considered less stable than a finished record of the others.
pub const TTL_JIKAN: i32 = 21600;

/// What kind of response a TTL is derived for.
#[derive(Debug, Clone, Copy, PartialEq, Eq, Structural)]
pub enum ResponseKind {
    Config,
    Listing,
    Metadata { is_finished: bool, via_jikan: bool },
}

/// The TTL policy: configuration listings are short-lived (one minute),
/// item listings get the default API TTL (one day), metadata is kept
/// thirty days when finished and seven when ongoing, except that a record
/// from the Jikan path gets its own shorter override.
pub open spec fn cache_ttl_spec(kind: ResponseKind) -> int {
    match kind {
        ResponseKind::Config => TTL_ONE_MINUTE as int,
        ResponseKind::Listing => TTL_ONE_DAY as int,
        ResponseKind::Metadata { is_finished, via_jikan } => if via_jikan {
            TTL_JIKAN as int
        } else if is_finished {
            TTL_FINISHED as int
        } else {
            TTL_ONGOING as int
        },
    }
}

pub fn cache_ttl(kind: ResponseKind) -> (r: i32)
    ensures
        r == cache_ttl_spec(kind),
{
    match kind {
        ResponseKind::Config => TTL_ONE_MINUTE,
        ResponseKind::Listing => TTL_ONE_DAY,
        ResponseKind::Metadata { is_finished, via_jikan } => {
            if via_jikan {
                TTL_JIKAN
            } else if is_finished {
                TTL_FINISHED
            } else {
                TTL_ONGOING
            }
        },
    }
}

/// Upstream fetch-level TTL: hours for a payload, one hour for a miss.
pub fn upstream_cache_ttl(found: bool) -> (r: i32)
    ensures
        found ==> r == TTL_UPSTREAM_OK,
        !found ==> r == TTL_UPSTREAM_MISS,
{
    if found {
        TTL_UPSTREAM_OK
    } else {
        TTL_UPSTREAM_MISS
    }
}

/// The first year the archival source covers.
pub const START_YEAR: i32 = 1943;

/// The years a configuration response advertises: one year past the
/// current one down to the first archival year, newest first.
pub fn config_years(current_year: i32) -> (r: Vec<i32>)
    requires
        START_YEAR <= current_year < i32::MAX,
    ensures
        r@.len() == current_year + 2 - START_YEAR,
        forall|i: int| 0 <= i < r@.len() ==> #[trigger] r@[i] == current_year + 1 - i,
{
    let top = current_year + 1;
    let mut r: Vec<i32> = Vec::new();
    let mut y: i32 = top;
    while y >= START_YEAR
        invariant
            START_YEAR - 1 <= y <= top,
            top == current_year + 1,
            current_year < i32::MAX,
            r@.len() == top - y,
            forall|i: int| 0 <= i < r@.len() ==> #[trigger] r@[i] == top - i,
        decreases y - START_YEAR + 1,
    {
        r.push(y);
        y -= 1;
    }
    r
}

} // verus!
