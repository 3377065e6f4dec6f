//! Pipeline logic for a comment and video-metadata aggregator: pagination
//! planning, record extraction, chronological month grouping, top-comment
//! selection, and JSON text for the records.

use vstd::prelude::*;

pub mod comments;
pub mod json;
pub mod time;
pub mod video_info;

verus! {

/// A timestamp the pipeline accepts: seconds since the Unix epoch whose
/// UTC+8 rendering has a four-digit year (local year 0000 through 9999), the
/// domain that ISO-8601 timestamps carry.
pub open spec fn ts_in_range(t: int) -> bool {
    -62167248000 <= t <= 253402271999
}

} // verus!
