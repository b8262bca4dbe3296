//! The alias table and the single-step alias rewrite that
//! canonicalization iterates.

use vstd::prelude::*;
use crate::errors::TransformError;
use crate::identifier::{copy_variants, IdModel, LocaleIdentifier};
use crate::likely::{maximize, spec_maximize, LikelyModel, LikelySubtagsTable};
use crate::search::{
    check_sorted_id, check_sorted_subtag, find_id, find_subtag, id_pairs, sorted_by_id,
    sorted_by_subtag, spec_find_id, spec_find_subtag,
};
use crate::subtag::{Subtag, SGN_LANGUAGE_RAW};

verus! {

/// The alias data: one partition per rule kind, each an immutable
/// vector of old → new entries sorted strictly ascending by key.
/// Loaded once, never mutated.
pub struct AliasTable {
    /// Irregular full-tag rewrites, keyed by the whole identifier.
    pub language: Vec<(LocaleIdentifier, LocaleIdentifier)>,
    /// Language + variants rewrites, keyed by an identifier that
    /// carries only a language and variants.
    pub language_variants: Vec<(LocaleIdentifier, LocaleIdentifier)>,
    /// Sign-language region rewrites: region code → identifier,
    /// consulted only when the language is `sgn`.
    pub sgn_region: Vec<(Subtag, LocaleIdentifier)>,
    /// Deprecated two-letter language codes → identifier.
    pub language_len2: Vec<(Subtag, LocaleIdentifier)>,
    /// Deprecated three-letter language codes → identifier.
    pub language_len3: Vec<(Subtag, LocaleIdentifier)>,
    /// Deprecated script codes, one for one.
    pub script: Vec<(Subtag, Subtag)>,
    /// Deprecated alphabetic region codes, one for one.
    pub region_alpha: Vec<(Subtag, Subtag)>,
    /// Deprecated numeric region codes, one for one.
    pub region_num: Vec<(Subtag, Subtag)>,
    /// Deprecated region codes with several candidate replacements,
    /// disambiguated through the likely-subtags data.
    pub complex_region: Vec<(Subtag, Vec<Subtag>)>,
    /// Deprecated variant codes, one for one.
    pub variant: Vec<(Subtag, Subtag)>,
    /// Deprecated subdivision codes, one for one.
    pub subdivision: Vec<(Subtag, Subtag)>,
}

/// The table invariant over the partitions' values: every partition
/// strictly ascending by key (so keys are unique and binary search is
/// sound), and every complex-region rule carrying at least one
/// candidate.
pub open spec fn alias_partitions_wf(
    language: Seq<(LocaleIdentifier, LocaleIdentifier)>,
    language_variants: Seq<(LocaleIdentifier, LocaleIdentifier)>,
    sgn_region: Seq<(Subtag, LocaleIdentifier)>,
    language_len2: Seq<(Subtag, LocaleIdentifier)>,
    language_len3: Seq<(Subtag, LocaleIdentifier)>,
    script: Seq<(Subtag, Subtag)>,
    region_alpha: Seq<(Subtag, Subtag)>,
    region_num: Seq<(Subtag, Subtag)>,
    complex_region: Seq<(Subtag, Vec<Subtag>)>,
    variant: Seq<(Subtag, Subtag)>,
    subdivision: Seq<(Subtag, Subtag)>,
) -> bool {
    &&& sorted_by_id(id_pairs(language))
    &&& sorted_by_id(id_pairs(language_variants))
    &&& sorted_by_subtag(sgn_region)
    &&& sorted_by_subtag(language_len2)
    &&& sorted_by_subtag(language_len3)
    &&& sorted_by_subtag(script)
    &&& sorted_by_subtag(region_alpha)
    &&& sorted_by_subtag(region_num)
    &&& sorted_by_subtag(complex_region)
    &&& sorted_by_subtag(variant)
    &&& sorted_by_subtag(subdivision)
    &&& forall|i: int| 0 <= i < complex_region.len() ==> (#[trigger] complex_region[i]).1@.len()
        > 0
}

impl AliasTable {
    pub open spec fn wf(&self) -> bool {
        alias_partitions_wf(
            self.language@,
            self.language_variants@,
            self.sgn_region@,
            self.language_len2@,
            self.language_len3@,
            self.script@,
            self.region_alpha@,
            self.region_num@,
            self.complex_region@,
            self.variant@,
            self.subdivision@,
        )
    }

    /// Validates a table supplied by the provider: succeeds exactly
    /// when every partition is strictly ascending by key and every
    /// complex-region rule has at least one candidate.
    pub fn try_new(
        language: Vec<(LocaleIdentifier, LocaleIdentifier)>,
        language_variants: Vec<(LocaleIdentifier, LocaleIdentifier)>,
        sgn_region: Vec<(Subtag, LocaleIdentifier)>,
        language_len2: Vec<(Subtag, LocaleIdentifier)>,
        language_len3: Vec<(Subtag, LocaleIdentifier)>,
        script: Vec<(Subtag, Subtag)>,
        region_alpha: Vec<(Subtag, Subtag)>,
        region_num: Vec<(Subtag, Subtag)>,
        complex_region: Vec<(Subtag, Vec<Subtag>)>,
        variant: Vec<(Subtag, Subtag)>,
        subdivision: Vec<(Subtag, Subtag)>,
    ) -> (r: Result<AliasTable, TransformError>)
        ensures
            r is Ok <==> alias_partitions_wf(
                language@,
                language_variants@,
                sgn_region@,
                language_len2@,
                language_len3@,
                script@,
                region_alpha@,
                region_num@,
                complex_region@,
                variant@,
                subdivision@,
            ),
            r matches Ok(t) ==> t.wf() && t.language@ == language@ && t.language_variants@
                == language_variants@ && t.sgn_region@ == sgn_region@ && t.language_len2@
                == language_len2@ && t.language_len3@ == language_len3@ && t.script@ == script@
                && t.region_alpha@ == region_alpha@ && t.region_num@ == region_num@
                && t.complex_region@ == complex_region@ && t.variant@ == variant@
                && t.subdivision@ == subdivision@,
    {
        let ok = check_sorted_id(&language) && check_sorted_id(&language_variants)
            && check_sorted_subtag(&sgn_region) && check_sorted_subtag(&language_len2)
            && check_sorted_subtag(&language_len3) && check_sorted_subtag(&script)
            && check_sorted_subtag(&region_alpha) && check_sorted_subtag(&region_num)
            && check_sorted_subtag(&complex_region) && check_sorted_subtag(&variant)
            && check_sorted_subtag(&subdivision) && check_candidates_nonempty(&complex_region);
        if !ok {
            return Err(TransformError::InternalInvariantViolation);
        }
        Ok(
            AliasTable {
                language,
                language_variants,
                sgn_region,
                language_len2,
                language_len3,
                script,
                region_alpha,
                region_num,
                complex_region,
                variant,
                subdivision,
            },
        )
    }

    /// The identifier with the first matching alias rule applied, or
    /// `None` when no rule matches; see [`alias_for`]. The
    /// likely-subtags table takes part because resolving a complex
    /// region rule is a joint operation of the two tables.
    pub fn alias_for(&self, likely: &LikelySubtagsTable, id: &LocaleIdentifier) -> (r: Option<
        LocaleIdentifier,
    >)
        requires
            self.wf(),
            likely@.wf(),
        ensures
            match r {
                Some(next) => spec_alias_step(*self, *likely, id@) == Some(next@),
                None => spec_alias_step(*self, *likely, id@) is None,
            },
    {
        alias_for(self, likely, id)
    }

    /// The subdivision alias for `sub`, if any. Subdivision rewrites
    /// apply to subdivision keywords, which a language identifier does
    /// not carry; callers that track subdivisions beside an identifier
    /// apply this lookup themselves.
    pub fn subdivision_replacement(&self, sub: Subtag) -> (r: Option<Subtag>)
        requires
            self.wf(),
        ensures
            r == spec_find_subtag(self.subdivision@, sub),
    {
        match find_subtag(&self.subdivision, sub) {
            Option::Some(i) => Some(self.subdivision[i].1),
            Option::None => None,
        }
    }
}

fn check_candidates_nonempty(v: &Vec<(Subtag, Vec<Subtag>)>) -> (r: bool)
    ensures
        r == forall|i: int| 0 <= i < v@.len() ==> (#[trigger] v@[i]).1@.len() > 0,
{
    let mut i: usize = 0;
    while i < v.len()
        invariant
            i <= v@.len(),
            forall|j: int| 0 <= j < i ==> (#[trigger] v@[j]).1@.len() > 0,
        decreases v@.len() - i,
    {
        if v[i].1.len() == 0 {
            return false;
        }
        i = i + 1;
    }
    true
}

// ---------------------------------------------------------------------
// Rule application
// ---------------------------------------------------------------------
/// The probe for the language+variants partition: the input with its
/// script and region masked out.
pub open spec fn lv_key(id: IdModel) -> IdModel {
    IdModel { language: id.language, script: None, region: None, variants: id.variants }
}

/// Applying a language alias: the language is replaced; any script or
/// region the replacement carries only fills fields the input leaves
/// undefined; variants are untouched.
pub open spec fn apply_language_alias(id: IdModel, v: IdModel) -> IdModel {
    IdModel {
        language: v.language,
        script: if id.script is Some {
            id.script
        } else {
            v.script
        },
        region: if id.region is Some {
            id.region
        } else {
            v.region
        },
        variants: id.variants,
    }
}

/// Applying a sign-language region alias: the matched language–region
/// pair is replaced by the replacement's language and region (usually
/// none, consuming the region); a script the replacement carries only
/// fills an undefined script.
pub open spec fn apply_sgn_alias(id: IdModel, v: IdModel) -> IdModel {
    IdModel {
        language: v.language,
        script: if id.script is Some {
            id.script
        } else {
            v.script
        },
        region: v.region,
        variants: id.variants,
    }
}

/// Applying a language+variants alias: the matched language and
/// variants are both replaced; script and region of the replacement
/// only fill fields the input leaves undefined.
pub open spec fn apply_language_variants_alias(id: IdModel, v: IdModel) -> IdModel {
    IdModel {
        language: v.language,
        script: if id.script is Some {
            id.script
        } else {
            v.script
        },
        region: if id.region is Some {
            id.region
        } else {
            v.region
        },
        variants: v.variants,
    }
}

pub open spec fn with_script(id: IdModel, s: Subtag) -> IdModel {
    IdModel { script: Some(s), ..id }
}

pub open spec fn with_region(id: IdModel, r: Subtag) -> IdModel {
    IdModel { region: Some(r), ..id }
}

/// True when `repl` already occurs in `vars` at a position other than
/// `i`.
pub open spec fn dup_elsewhere(vars: Seq<Subtag>, i: int, repl: Subtag) -> bool {
    exists|j: int| 0 <= j < vars.len() && j != i && vars[j] == repl
}

/// Applying a variant alias at position `i`: the variant is replaced in
/// place; if the replacement already occurs elsewhere in the list, the
/// matched variant is removed instead, so the list stays free of
/// duplicates.
pub open spec fn apply_variant(id: IdModel, i: int, repl: Subtag) -> IdModel {
    if dup_elsewhere(id.variants, i, repl) {
        IdModel { variants: id.variants.remove(i), ..id }
    } else {
        IdModel { variants: id.variants.update(i, repl), ..id }
    }
}

/// The first variant (in list order) that has an alias, with its
/// replacement.
pub open spec fn spec_variant_rule(
    part: Seq<(Subtag, Subtag)>,
    vars: Seq<Subtag>,
    i: int,
) -> Option<(int, Subtag)>
    decreases vars.len() - i,
{
    if i < 0 || i >= vars.len() {
        None
    } else {
        match spec_find_subtag(part, vars[i]) {
            Option::Some(repl) => Some((i, repl)),
            Option::None => spec_variant_rule(part, vars, i + 1),
        }
    }
}

/// The replacement region chosen for a complex region rule: the region
/// that maximizing the rest of the identifier suggests, when it is one
/// of the candidates; the first candidate otherwise.
pub open spec fn spec_resolve_complex(lm: LikelyModel, id: IdModel, candidates: Seq<Subtag>) -> IdModel {
    let likely = spec_maximize(lm, IdModel { region: None, ..id });
    let chosen = match likely.region {
        Option::Some(r) => if candidates.contains(r) {
            r
        } else {
            candidates[0]
        },
        Option::None => candidates[0],
    };
    IdModel { region: Some(chosen), ..id }
}

// ---------------------------------------------------------------------
// The single rewrite step
// ---------------------------------------------------------------------
/// One pass over the rule kinds in precedence order; the first match
/// wins and yields the rewritten identifier.
pub open spec fn spec_alias_step(at: AliasTable, lt: LikelySubtagsTable, id: IdModel) -> Option<
    IdModel,
> {
    match spec_find_id(id_pairs(at.language@), id) {
        Option::Some(v) => Some(v),
        Option::None => match spec_find_id(id_pairs(at.language_variants@), lv_key(id)) {
            Option::Some(v) => Some(apply_language_variants_alias(id, v)),
            Option::None => spec_step_sgn(at, lt, id),
        },
    }
}

pub open spec fn spec_step_sgn(at: AliasTable, lt: LikelySubtagsTable, id: IdModel) -> Option<
    IdModel,
> {
    match id.region {
        Option::Some(r) => if id.language.raw == SGN_LANGUAGE_RAW {
            match spec_find_subtag(at.sgn_region@, r) {
                Option::Some(v) => Some(apply_sgn_alias(id, v@)),
                Option::None => spec_step_language(at, lt, id),
            }
        } else {
            spec_step_language(at, lt, id)
        },
        Option::None => spec_step_language(at, lt, id),
    }
}

pub open spec fn spec_step_language(at: AliasTable, lt: LikelySubtagsTable, id: IdModel) -> Option<
    IdModel,
> {
    match spec_find_subtag(at.language_len3@, id.language) {
        Option::Some(v) => Some(apply_language_alias(id, v@)),
        Option::None => match spec_find_subtag(at.language_len2@, id.language) {
            Option::Some(v) => Some(apply_language_alias(id, v@)),
            Option::None => spec_step_script(at, lt, id),
        },
    }
}

pub open spec fn spec_step_script(at: AliasTable, lt: LikelySubtagsTable, id: IdModel) -> Option<
    IdModel,
> {
    match id.script {
        Option::Some(s) => match spec_find_subtag(at.script@, s) {
            Option::Some(repl) => Some(with_script(id, repl)),
            Option::None => spec_step_region(at, lt, id),
        },
        Option::None => spec_step_region(at, lt, id),
    }
}

pub open spec fn spec_step_region(at: AliasTable, lt: LikelySubtagsTable, id: IdModel) -> Option<
    IdModel,
> {
    match id.region {
        Option::Some(r) => match spec_find_subtag(at.region_alpha@, r) {
            Option::Some(repl) => Some(with_region(id, repl)),
            Option::None => match spec_find_subtag(at.region_num@, r) {
                Option::Some(repl) => Some(with_region(id, repl)),
                Option::None => match spec_find_subtag(at.complex_region@, r) {
                    Option::Some(cands) => Some(spec_resolve_complex(lt@, id, cands@)),
                    Option::None => spec_step_variant(at, id),
                },
            },
        },
        Option::None => spec_step_variant(at, id),
    }
}

pub open spec fn spec_step_variant(at: AliasTable, id: IdModel) -> Option<IdModel> {
    match spec_variant_rule(at.variant@, id.variants, 0) {
        Option::Some(p) => Some(apply_variant(id, p.0, p.1)),
        Option::None => None,
    }
}

// ---------------------------------------------------------------------
// Executable forms
// ---------------------------------------------------------------------
fn apply_lang(id: &LocaleIdentifier, v: &LocaleIdentifier) -> (r: LocaleIdentifier)
    ensures
        r@ == apply_language_alias(id@, v@),
{
    let r = LocaleIdentifier {
        language: v.language,
        script: match id.script {
            Option::Some(s) => Some(s),
            Option::None => v.script,
        },
        region: match id.region {
            Option::Some(g) => Some(g),
            Option::None => v.region,
        },
        variants: copy_variants(&id.variants),
    };
    proof {
        assert(r@ =~= apply_language_alias(id@, v@));
    }
    r
}

fn apply_sgn(id: &LocaleIdentifier, v: &LocaleIdentifier) -> (r: LocaleIdentifier)
    ensures
        r@ == apply_sgn_alias(id@, v@),
{
    let r = LocaleIdentifier {
        language: v.language,
        script: match id.script {
            Option::Some(s) => Some(s),
            Option::None => v.script,
        },
        region: v.region,
        variants: copy_variants(&id.variants),
    };
    proof {
        assert(r@ =~= apply_sgn_alias(id@, v@));
    }
    r
}

fn apply_lv(id: &LocaleIdentifier, v: &LocaleIdentifier) -> (r: LocaleIdentifier)
    ensures
        r@ == apply_language_variants_alias(id@, v@),
{
    let r = LocaleIdentifier {
        language: v.language,
        script: match id.script {
            Option::Some(s) => Some(s),
            Option::None => v.script,
        },
        region: match id.region {
            Option::Some(g) => Some(g),
            Option::None => v.region,
        },
        variants: copy_variants(&v.variants),
    };
    proof {
        assert(r@ =~= apply_language_variants_alias(id@, v@));
    }
    r
}

fn set_script(id: &LocaleIdentifier, s: Subtag) -> (r: LocaleIdentifier)
    ensures
        r@ == with_script(id@, s),
{
    let r = LocaleIdentifier {
        language: id.language,
        script: Some(s),
        region: id.region,
        variants: copy_variants(&id.variants),
    };
    proof {
        assert(r@ =~= with_script(id@, s));
    }
    r
}

fn set_region(id: &LocaleIdentifier, g: Subtag) -> (r: LocaleIdentifier)
    ensures
        r@ == with_region(id@, g),
{
    let r = LocaleIdentifier {
        language: id.language,
        script: id.script,
        region: Some(g),
        variants: copy_variants(&id.variants),
    };
    proof {
        assert(r@ =~= with_region(id@, g));
    }
    r
}

fn contains_subtag(v: &Vec<Subtag>, x: Subtag) -> (r: bool)
    ensures
        r == v@.contains(x),
{
    let mut i: usize = 0;
    while i < v.len()
        invariant
            i <= v@.len(),
            forall|j: int| 0 <= j < i ==> v@[j] != x,
        decreases v@.len() - i,
    {
        if v[i].raw == x.raw {
            proof {
                assert(v@[i as int] == x);
            }
            return true;
        }
        i = i + 1;
    }
    false
}

fn resolve_complex(lm: &LikelySubtagsTable, id: &LocaleIdentifier, cands: &Vec<Subtag>) -> (r:
    LocaleIdentifier)
    requires
        lm@.wf(),
        cands@.len() > 0,
    ensures
        r@ == spec_resolve_complex(lm@, id@, cands@),
{
    let cleared = id.with_region_cleared();
    let m = maximize(lm, &cleared);
    let chosen: Subtag = match m.region {
        Option::Some(g) => if contains_subtag(cands, g) {
            g
        } else {
            cands[0]
        },
        Option::None => cands[0],
    };
    set_region(id, chosen)
}

fn apply_variant_at(id: &LocaleIdentifier, i: usize, repl: Subtag) -> (r: LocaleIdentifier)
    requires
        i < id@.variants.len(),
    ensures
        r@ == apply_variant(id@, i as int, repl),
{
    let mut dup = false;
    let mut j: usize = 0;
    while j < id.variants.len()
        invariant
            j <= id@.variants.len(),
            dup == exists|p: int| 0 <= p < j && p != i && id@.variants[p] == repl,
        decreases id@.variants.len() - j,
    {
        if j != i && id.variants[j].raw == repl.raw {
            proof {
                assert(id@.variants[j as int] == repl);
            }
            dup = true;
        }
        j = j + 1;
    }
    let mut vars = copy_variants(&id.variants);
    if dup {
        vars.remove(i);
        let r = LocaleIdentifier {
            language: id.language,
            script: id.script,
            region: id.region,
            variants: vars,
        };
        proof {
            assert(r@ =~= apply_variant(id@, i as int, repl));
        }
        r
    } else {
        vars.remove(i);
        vars.insert(i, repl);
        let r = LocaleIdentifier {
            language: id.language,
            script: id.script,
            region: id.region,
            variants: vars,
        };
        proof {
            assert(r@.variants =~= id@.variants.update(i as int, repl));
            assert(r@ =~= apply_variant(id@, i as int, repl));
        }
        r
    }
}

/// The identifier with the first matching alias rule applied, or
/// `None` when no rule matches.
///
/// Precedence: full-tag exact match → language+variants →
/// sign-language region (only when the language is `sgn`) → language
/// code (three-letter partition, then two-letter) → script → region
/// (alphabetic, numeric, then complex) → variant (each variant tried in
/// list order). Subdivision aliases concern subdivision keywords, which
/// the identifier does not carry; see
/// [`AliasTable::subdivision_replacement`].
pub fn alias_for(at: &AliasTable, lt: &LikelySubtagsTable, id: &LocaleIdentifier) -> (r: Option<
    LocaleIdentifier,
>)
    requires
        at.wf(),
        lt@.wf(),
    ensures
        match r {
            Some(next) => spec_alias_step(*at, *lt, id@) == Some(next@),
            None => spec_alias_step(*at, *lt, id@) is None,
        },
{
    // Full-tag exact match: the whole identifier is replaced.
    if let Option::Some(i) = find_id(&at.language, id) {
        return Some(at.language[i].1.duplicate());
    }
    // Language + variants.
    let probe = LocaleIdentifier {
        language: id.language,
        script: None,
        region: None,
        variants: copy_variants(&id.variants),
    };
    proof {
        assert(probe@ =~= lv_key(id@));
    }
    if let Option::Some(i) = find_id(&at.language_variants, &probe) {
        return Some(apply_lv(id, &at.language_variants[i].1));
    }
    // Sign-language region.
    if let Option::Some(g) = id.region {
        if id.language.raw == SGN_LANGUAGE_RAW {
            if let Option::Some(i) = find_subtag(&at.sgn_region, g) {
                return Some(apply_sgn(id, &at.sgn_region[i].1));
            }
        }
    }
    // Deprecated language codes, three-letter before two-letter. The
    // packing is injective, so a two-letter language never equals a
    // three-letter key: probing the partitions in order is all the
    // precedence needs.
    if let Option::Some(i) = find_subtag(&at.language_len3, id.language) {
        return Some(apply_lang(id, &at.language_len3[i].1));
    }
    if let Option::Some(i) = find_subtag(&at.language_len2, id.language) {
        return Some(apply_lang(id, &at.language_len2[i].1));
    }
    // Deprecated scripts.
    if let Option::Some(s) = id.script {
        if let Option::Some(i) = find_subtag(&at.script, s) {
            return Some(set_script(id, at.script[i].1));
        }
    }
    // Deprecated regions: alphabetic, numeric, then complex.
    if let Option::Some(g) = id.region {
        if let Option::Some(i) = find_subtag(&at.region_alpha, g) {
            return Some(set_region(id, at.region_alpha[i].1));
        }
        if let Option::Some(i) = find_subtag(&at.region_num, g) {
            return Some(set_region(id, at.region_num[i].1));
        }
        if let Option::Some(i) = find_subtag(&at.complex_region, g) {
            return Some(resolve_complex(lt, id, &at.complex_region[i].1));
        }
    }
    // Deprecated variants, each variant tried in list order.
    let mut vi: usize = 0;
    while vi < id.variants.len()
        invariant
            vi <= id@.variants.len(),
            at.wf(),
            spec_alias_step(*at, *lt, id@) == spec_step_variant(*at, id@),
            spec_variant_rule(at.variant@, id@.variants, 0) == spec_variant_rule(
                at.variant@,
                id@.variants,
                vi as int,
            ),
        decreases id@.variants.len() - vi,
    {
        if let Option::Some(i) = find_subtag(&at.variant, id.variants[vi]) {
            proof {
                assert(spec_variant_rule(at.variant@, id@.variants, vi as int) == Some(
                    (vi as int, at.variant@[i as int].1),
                ));
            }
            return Some(apply_variant_at(id, vi, at.variant[i].1));
        }
        vi = vi + 1;
    }
    None
}

} // verus!
