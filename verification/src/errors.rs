//! The error taxonomy of the core.

use vstd::prelude::*;

verus! {

/// An error of the outside data provider, reported when a table payload
/// is requested. The core never retries: the error is propagated to the
/// caller unchanged.
#[derive(Clone, Copy, Debug, PartialEq, Eq, Structural)]
pub enum ProviderError {
    /// The provider does not know the requested resource key.
    MissingResourceKey,
    /// The provider knows the key but not the requested version or
    /// variant.
    MissingResourceOptions,
}

/// A violation of the core's own data invariants. This is fatal to the
/// call that detects it and distinct from the normal "no rule matched"
/// outcome, which is not an error.
#[derive(Clone, Copy, Debug, PartialEq, Eq, Structural)]
pub enum TransformError {
    /// The table data is corrupt: a partition out of order, a
    /// complex-region rule without candidates, a likely-subtags target
    /// that is not fully specified — or alias data whose rewrite chain
    /// did not reach a fixpoint within the pass cap.
    InternalInvariantViolation,
}

} // verus!
