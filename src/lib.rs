//! Resolves the share links of a file host into direct download links.
//!
//! The library holds the logic: pulling values out of page text, rebuilding
//! the form that the host expects, and the decisions of a resolution, as a
//! state machine that a caller drives with the responses of its own HTTP
//! client.
use vstd::prelude::*;

pub mod extract;
pub mod params;
pub mod resolve;
pub mod text;

verus! {

/// Why a resolution, or one layout's attempt at it, failed.
#[derive(Clone, Copy, Debug, PartialEq, Eq, Structural)]
pub enum ResolveError {
    /// An expected marker was absent from fetched text.
    PatternNotFound,
    /// An extracted fragment could not be split into key/value pairs.
    MalformedFragment,
    /// The HTTP client could not complete a request or decode its answer.
    TransportError,
    /// A probe response had no redirect location.
    RedirectHeaderMissing,
}

} // verus!
