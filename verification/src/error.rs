//! The ways in which an ingestion can fail.

use vstd::prelude::*;

verus! {

/// Why an ingestion was abandoned. Nothing is written once one of these is raised.
#[derive(Clone, Copy, Debug, PartialEq, Eq, Structural)]
pub enum IngestError {
    /// The URL has neither of the two recognised shapes, or the long shape without a
    /// `v` parameter.
    InvalidUrl,
    /// The read API knows no item for the identifier.
    NotFound,
    /// A fetch failed, or an answer did not have the expected shape.
    UpstreamError,
    /// The page of the video does not hold the captions marker.
    CaptionsUnavailable,
    /// The timed-text document could not be read to its end.
    MalformedCaptions,
    /// The store refused a lookup or a write.
    StoreError,
}

} // verus!
