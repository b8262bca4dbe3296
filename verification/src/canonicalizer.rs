//! The facade composing the two engines. This is the entry point
//! external callers use.

use vstd::prelude::*;
use crate::alias::AliasTable;
use crate::canonical::{canonicalize, spec_canonicalize, PASS_CAP};
use crate::errors::TransformError;
use crate::identifier::LocaleIdentifier;
use crate::likely::{maximize, minimize, spec_maximize, spec_minimize, LikelySubtagsTable};

verus! {

/// A stateless transformer over provider-owned tables. It borrows the
/// tables, holds no mutable state, and never clones a partition; any
/// number of callers may share one instance.
pub struct Canonicalizer<'a> {
    pub aliases: &'a AliasTable,
    pub likely: &'a LikelySubtagsTable,
}

impl<'a> Canonicalizer<'a> {
    pub open spec fn wf(&self) -> bool {
        self.aliases.wf() && self.likely@.wf()
    }

    /// Builds the facade over validated tables.
    pub fn new(aliases: &'a AliasTable, likely: &'a LikelySubtagsTable) -> (r: Canonicalizer<'a>)
        requires
            aliases.wf(),
            likely@.wf(),
        ensures
            r.wf(),
            r.aliases == aliases,
            r.likely == likely,
    {
        Canonicalizer { aliases, likely }
    }

    /// Rewrites deprecated subtags until no alias rule applies a
    /// change; fails only when the pass cap is exceeded, which marks
    /// corrupt alias data.
    pub fn canonicalize(&self, id: &LocaleIdentifier) -> (r: Result<
        LocaleIdentifier,
        TransformError,
    >)
        requires
            self.wf(),
        ensures
            r matches Ok(c) ==> spec_canonicalize(*self.aliases, *self.likely, id@, PASS_CAP as nat)
                == Some(c@),
            r is Err ==> spec_canonicalize(*self.aliases, *self.likely, id@, PASS_CAP as nat)
                is None,
    {
        canonicalize(self.aliases, self.likely, id)
    }

    /// Fills every undefined field with its most likely value; never
    /// fails.
    pub fn maximize(&self, id: &LocaleIdentifier) -> (r: LocaleIdentifier)
        requires
            self.wf(),
        ensures
            r@ == spec_maximize(self.likely@, id@),
    {
        maximize(self.likely, id)
    }

    /// Canonicalizes, then removes the subtags that maximizing would
    /// restore (minimizing a non-canonical identifier is not
    /// meaningful). Fails only as `canonicalize` does.
    pub fn minimize(&self, id: &LocaleIdentifier) -> (r: Result<LocaleIdentifier, TransformError>)
        requires
            self.wf(),
        ensures
            r matches Ok(m) ==> (spec_canonicalize(*self.aliases, *self.likely, id@, PASS_CAP as nat)
                matches Some(c) && m@ == spec_minimize(self.likely@, c)),
            r is Err ==> spec_canonicalize(*self.aliases, *self.likely, id@, PASS_CAP as nat)
                is None,
    {
        match canonicalize(self.aliases, self.likely, id) {
            Result::Ok(c) => Ok(minimize(self.likely, &c)),
            Result::Err(e) => Err(e),
        }
    }
}

} // verus!
