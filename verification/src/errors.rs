//! Error taxonomy for the pipeline: each failure is isolated to a single
//! target or record and never aborts sibling targets.

use vstd::prelude::*;

verus! {

/// The kinds of failure the pipeline distinguishes.
///
/// - `InvalidSelector`: a selector string failed to compile; the one target
///   using it is skipped.
/// - `InvalidUrl`: no host could be derived from a URL; record construction
///   for that single string is aborted.
/// - `FetchFailure`: a network or status error on one target's fetch; the
///   target is skipped, never retried.
/// - `PersistenceFailure`: schema creation or a transaction failed; that
///   target's persistence is skipped, the run continues.
/// - `ConfigurationError`: no usable target could be resolved at all.
#[derive(Debug, Clone, Copy, PartialEq, Eq, Structural)]
pub enum ScrapeError {
    InvalidSelector,
    InvalidUrl,
    FetchFailure,
    PersistenceFailure,
    ConfigurationError,
}

impl ScrapeError {
    /// A short human-readable name for the failure kind.
    pub fn describe(&self) -> (r: &'static str)
        ensures
            r@ == self.describe_spec(),
    {
        match self {
            ScrapeError::InvalidSelector => "invalid selector",
            ScrapeError::InvalidUrl => "invalid url",
            ScrapeError::FetchFailure => "fetch failure",
            ScrapeError::PersistenceFailure => "persistence failure",
            ScrapeError::ConfigurationError => "configuration error",
        }
    }

    pub open spec fn describe_spec(&self) -> Seq<char> {
        match self {
            ScrapeError::InvalidSelector => "invalid selector"@,
            ScrapeError::InvalidUrl => "invalid url"@,
            ScrapeError::FetchFailure => "fetch failure"@,
            ScrapeError::PersistenceFailure => "persistence failure"@,
            ScrapeError::ConfigurationError => "configuration error"@,
        }
    }
}

} // verus!
