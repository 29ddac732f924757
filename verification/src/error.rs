use vstd::prelude::*;

verus! {

/// Failures a segment-backed provider can surface.
///
/// "Not found" is never an error: keyed lookups return `None` for it. An
/// error either marks a query as structurally unanswerable from a single
/// immutable segment, or reports a batch validation failure.
#[derive(Clone, Copy, Debug, PartialEq, Eq)]
pub enum ProviderError {
    /// The query needs live-chain or indexing information a bare segment
    /// does not carry; the caller must retry against the live store.
    UnsupportedProvider,
    /// Batch sender recovery could not recover every member of the batch.
    SenderRecovery,
}

/// Result of every provider query.
pub type ProviderResult<T> = Result<T, ProviderError>;

} // verus!
