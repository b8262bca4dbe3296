//! The canonicalization engine: the alias rewrite iterated to a
//! fixpoint under a hard pass cap.

use vstd::prelude::*;
use crate::alias::{alias_for, spec_alias_step, AliasTable};
use crate::errors::TransformError;
use crate::identifier::{IdModel, LocaleIdentifier};
use crate::likely::LikelySubtagsTable;

verus! {

/// The hard cap on rewrite passes. TR35-derived alias data is not
/// formally guaranteed to converge on arbitrary inputs, so the loop
/// refuses to run past this bound; exceeding it signals corrupt table
/// data, never malformed user input, and is reported as
/// [`TransformError::InternalInvariantViolation`] rather than silently
/// returning a non-fixpoint result.
pub const PASS_CAP: u32 = 15;

/// An identifier the rewrite loop stops at: no alias rule fires, or the
/// rule that fires applies no change.
pub open spec fn is_fixpoint(at: AliasTable, lt: LikelySubtagsTable, id: IdModel) -> bool {
    match spec_alias_step(at, lt, id) {
        Option::None => true,
        Option::Some(n) => n == id,
    }
}

/// What canonicalize returns with `fuel` rewrite passes left: the
/// fixpoint reached by iterating the alias step, or `None` when the
/// fuel runs out first.
pub open spec fn spec_canonicalize(
    at: AliasTable,
    lt: LikelySubtagsTable,
    id: IdModel,
    fuel: nat,
) -> Option<IdModel>
    decreases fuel,
{
    match spec_alias_step(at, lt, id) {
        Option::None => Some(id),
        Option::Some(next) => if next == id {
            Some(id)
        } else if fuel == 0 {
            None
        } else {
            spec_canonicalize(at, lt, next, (fuel - 1) as nat)
        },
    }
}

/// Rewrites deprecated subtags until no alias rule applies a change,
/// with a caller-chosen cap on the number of applications.
///
/// After every successful application the search restarts from the top
/// of the precedence order, since a replacement can expose a new,
/// higher-precedence rule. If the data still has a rule firing a
/// change after `cap` applications, the call fails with
/// `InternalInvariantViolation`. Identifiers no rule matches are
/// returned unchanged.
pub fn canonicalize_with_cap(
    at: &AliasTable,
    lt: &LikelySubtagsTable,
    id: &LocaleIdentifier,
    cap: u32,
) -> (r: Result<LocaleIdentifier, TransformError>)
    requires
        at.wf(),
        lt@.wf(),
    ensures
        r matches Ok(c) ==> spec_canonicalize(*at, *lt, id@, cap as nat) == Some(c@),
        r is Err ==> spec_canonicalize(*at, *lt, id@, cap as nat) is None,
{
    let mut cur = id.duplicate();
    let mut passes: u32 = 0;
    loop
        invariant
            at.wf(),
            lt@.wf(),
            passes <= cap,
            spec_canonicalize(*at, *lt, cur@, (cap - passes) as nat) == spec_canonicalize(
                *at,
                *lt,
                id@,
                cap as nat,
            ),
        decreases cap - passes,
    {
        match alias_for(at, lt, &cur) {
            Option::None => {
                return Ok(cur);
            },
            Option::Some(next) => {
                if next == cur {
                    return Ok(cur);
                }
                if passes == cap {
                    return Err(TransformError::InternalInvariantViolation);
                }
                cur = next;
                passes = passes + 1;
            },
        }
    }
}

/// [`canonicalize_with_cap`] at the default cap, [`PASS_CAP`].
pub fn canonicalize(at: &AliasTable, lt: &LikelySubtagsTable, id: &LocaleIdentifier) -> (r: Result<
    LocaleIdentifier,
    TransformError,
>)
    requires
        at.wf(),
        lt@.wf(),
    ensures
        r matches Ok(c) ==> spec_canonicalize(*at, *lt, id@, PASS_CAP as nat) == Some(c@),
        r is Err ==> spec_canonicalize(*at, *lt, id@, PASS_CAP as nat) is None,
{
    canonicalize_with_cap(at, lt, id, PASS_CAP)
}

} // verus!
