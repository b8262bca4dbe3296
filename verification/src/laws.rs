//! The library's laws, stated and proved over the specification
//! functions that the engines' contracts use.

use vstd::prelude::*;
use crate::alias::{spec_alias_step, AliasTable};
use crate::canonical::{is_fixpoint, spec_canonicalize, PASS_CAP};
use crate::identifier::IdModel;
use crate::likely::{spec_maximize, spec_minimize, LikelyModel, LikelySubtagsTable};
use crate::search::{
    lemma_find_key2_value, lemma_find_subtag_value, spec_find_key2, spec_find_subtag,
};

verus! {

/// Any completion that maximize performs yields a fully defined
/// identifier; an input that no rule completes comes back unchanged.
pub proof fn lemma_maximize_full_or_unchanged(t: LikelyModel, id: IdModel)
    requires
        t.wf(),
    ensures
        spec_maximize(t, id) == id || (spec_maximize(t, id).language_defined() && spec_maximize(
            t,
            id,
        ).script is Some && spec_maximize(t, id).region is Some),
{
    if id.language_defined() {
        match (id.script, id.region) {
            (Option::Some(_), Option::Some(_)) => {},
            (Option::Some(s), Option::None) => {
                if spec_find_key2(t.language_script, (id.language, s)) is Some {
                    lemma_find_key2_value(t.language_script, (id.language, s));
                } else if spec_find_subtag(t.language, id.language) is Some {
                    lemma_find_subtag_value(t.language, id.language);
                }
            },
            (Option::None, Option::Some(r)) => {
                if spec_find_key2(t.language_region, (id.language, r)) is Some {
                    lemma_find_key2_value(t.language_region, (id.language, r));
                } else if spec_find_subtag(t.language, id.language) is Some {
                    lemma_find_subtag_value(t.language, id.language);
                }
            },
            (Option::None, Option::None) => {
                if spec_find_subtag(t.language, id.language) is Some {
                    lemma_find_subtag_value(t.language, id.language);
                }
            },
        }
    } else {
        match (id.script, id.region) {
            (Option::Some(s), Option::Some(r)) => {
                if spec_find_key2(t.script_region, (s, r)) is Some {
                    lemma_find_key2_value(t.script_region, (s, r));
                } else if spec_find_subtag(t.script, s) is Some {
                    lemma_find_subtag_value(t.script, s);
                } else if spec_find_subtag(t.region, r) is Some {
                    lemma_find_subtag_value(t.region, r);
                }
            },
            (Option::Some(s), Option::None) => {
                if spec_find_subtag(t.script, s) is Some {
                    lemma_find_subtag_value(t.script, s);
                }
            },
            (Option::None, Option::Some(r)) => {
                if spec_find_subtag(t.region, r) is Some {
                    lemma_find_subtag_value(t.region, r);
                }
            },
            (Option::None, Option::None) => {},
        }
    }
}

/// Law: maximize is idempotent — maximizing a maximized identifier
/// changes nothing.
pub proof fn lemma_maximize_idempotent(t: LikelyModel, id: IdModel)
    requires
        t.wf(),
    ensures
        spec_maximize(t, spec_maximize(t, id)) == spec_maximize(t, id),
{
    lemma_maximize_full_or_unchanged(t, id);
}

/// Law: equivalence-class closure — maximizing a minimized identifier
/// reproduces the maximized form of the original.
pub proof fn lemma_minimize_round_trip(t: LikelyModel, id: IdModel)
    requires
        t.wf(),
    ensures
        spec_maximize(t, spec_minimize(t, id)) == spec_maximize(t, id),
{
    lemma_maximize_idempotent(t, id);
}

/// Law: minimize never increases specificity — every field of the
/// minimized identifier is the corresponding field of the maximized
/// form or absent, and the variants are those of the input, untouched.
pub proof fn lemma_minimize_no_new_fields(t: LikelyModel, id: IdModel)
    ensures
        ({
            let max = spec_maximize(t, id);
            let min = spec_minimize(t, id);
            &&& min.language == max.language
            &&& (min.script is Some ==> min.script == max.script)
            &&& (min.region is Some ==> min.region == max.region)
            &&& min.variants == id.variants
        }),
{
}

/// A successful canonicalization ends at a fixpoint of the alias step.
pub proof fn lemma_canonical_result_fixpoint(
    at: AliasTable,
    lt: LikelySubtagsTable,
    id: IdModel,
    c: IdModel,
    fuel: nat,
)
    requires
        spec_canonicalize(at, lt, id, fuel) == Some(c),
    ensures
        is_fixpoint(at, lt, c),
    decreases fuel,
{
    match spec_alias_step(at, lt, id) {
        Option::None => {},
        Option::Some(next) => {
            if next != id {
                lemma_canonical_result_fixpoint(at, lt, next, c, (fuel - 1) as nat);
            }
        },
    }
}

/// Law: canonicalize is idempotent — a canonical identifier
/// canonicalizes to itself.
pub proof fn lemma_canonicalize_idempotent(
    at: AliasTable,
    lt: LikelySubtagsTable,
    id: IdModel,
    c: IdModel,
)
    requires
        spec_canonicalize(at, lt, id, PASS_CAP as nat) == Some(c),
    ensures
        spec_canonicalize(at, lt, c, PASS_CAP as nat) == Some(c),
{
    lemma_canonical_result_fixpoint(at, lt, id, c, PASS_CAP as nat);
}

/// Law: no rule, no change — an identifier that no alias rule matches
/// canonicalizes to itself, whatever fuel is available.
pub proof fn lemma_no_rule_no_change(
    at: AliasTable,
    lt: LikelySubtagsTable,
    id: IdModel,
    fuel: nat,
)
    requires
        spec_alias_step(at, lt, id) is None,
    ensures
        spec_canonicalize(at, lt, id, fuel) == Some(id),
{
}

} // verus!
