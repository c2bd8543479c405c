//! The engine's error taxonomy.

use vstd::prelude::*;

verus! {

/// A record-level mapping failure: the record's own account is not in the
/// configured account mapping, so no destination reference exists for it.
#[derive(Debug, PartialEq, Eq, Structural, Clone, Copy)]
pub enum MappingError {
    UnmappedAccount,
}

/// A failure while reconciling a changed record against the destination.
#[derive(Debug, PartialEq, Eq, Structural, Clone, Copy)]
pub enum ReconciliationError {
    /// The external id matched a number of destination records other than
    /// one, so the update target is ambiguous or missing.
    AmbiguousMatch,
    /// The matched destination record holds no journal entry to update.
    EmptyMatch,
    /// The tracker holds no entry for the record, so there is no stored
    /// digest to refresh.
    Untracked,
}

/// A configuration failure: fatal before any migration work starts.
#[derive(Debug, PartialEq, Eq, Structural, Clone, Copy)]
pub enum ConfigurationError {
    MissingUpBankToken,
    MissingFireFlyToken,
    MissingFireFlyUrl,
    /// A fixed date window and a continuous schedule cannot be combined.
    WindowInContinuousMode,
    /// No valid start date could be computed from the requested range.
    InvalidDateRange,
}

} // verus!
