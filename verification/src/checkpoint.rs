//! The checkpoint: which height the scan starts at.

use vstd::prelude::*;

verus! {

/// The first height to process. An explicitly configured start height is
/// returned verbatim: it is the next height to fetch, not an offset. With no
/// explicit height, the ingestion endpoint's reported last-processed height
/// decides: a positive report resumes one past it; a report of zero, a
/// missing report, or a report at the numeric ceiling yields nothing and the
/// caller fails fatally.
pub open spec fn spec_start_height(explicit: Option<u64>, reported_last: Option<u64>) -> Option<
    u64,
> {
    match explicit {
        Some(h) => Some(h),
        None => match reported_last {
            Some(last) => if 0 < last < u64::MAX {
                Some((last + 1) as u64)
            } else {
                None
            },
            None => None,
        },
    }
}

/// Resolves the first height to process from the explicit configuration and
/// the checkpoint the ingestion endpoint reported.
pub fn resolve_start_height(explicit: Option<u64>, reported_last: Option<u64>) -> (r: Option<u64>)
    ensures
        r == spec_start_height(explicit, reported_last),
{
    match explicit {
        Some(h) => Some(h),
        None => match reported_last {
            Some(last) => if 0 < last && last < u64::MAX {
                Some(last + 1)
            } else {
                None
            },
            None => None,
        },
    }
}

} // verus!
