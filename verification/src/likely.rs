//! The likely-subtags table and the maximize / minimize operations.

use vstd::prelude::*;
use crate::errors::TransformError;
use crate::identifier::{copy_variants, IdModel, LocaleIdentifier};
use crate::search::{
    check_sorted_key2, check_sorted_subtag, find_key2, find_subtag, sorted_by_key2,
    sorted_by_subtag, spec_find_key2, spec_find_subtag,
};
use crate::subtag::{Subtag, UND_LANGUAGE_RAW};

verus! {

/// A likely-subtags completion target: a fully specified triple. The
/// shipped CLDR data always maps to complete language–script–region
/// triples, and requiring that here is what makes maximize idempotent.
#[derive(Clone, Copy, Debug, PartialEq, Eq, Structural)]
pub struct LikelyTarget {
    pub language: Subtag,
    pub script: Subtag,
    pub region: Subtag,
}

/// A target counts as fully specified only if its language is not the
/// `und` sentinel (script and region are always present by shape).
pub open spec fn target_defined(t: LikelyTarget) -> bool {
    t.language.raw != UND_LANGUAGE_RAW
}

pub open spec fn targets_defined_k1(s: Seq<(Subtag, LikelyTarget)>) -> bool {
    forall|i: int| 0 <= i < s.len() ==> target_defined((#[trigger] s[i]).1)
}

pub open spec fn targets_defined_k2(s: Seq<((Subtag, Subtag), LikelyTarget)>) -> bool {
    forall|i: int| 0 <= i < s.len() ==> target_defined((#[trigger] s[i]).1)
}

/// The mathematical value of a [`LikelySubtagsTable`].
#[verifier::ext_equal]
pub ghost struct LikelyModel {
    pub language_script: Seq<((Subtag, Subtag), LikelyTarget)>,
    pub language_region: Seq<((Subtag, Subtag), LikelyTarget)>,
    pub language: Seq<(Subtag, LikelyTarget)>,
    pub script_region: Seq<((Subtag, Subtag), LikelyTarget)>,
    pub script: Seq<(Subtag, LikelyTarget)>,
    pub region: Seq<(Subtag, LikelyTarget)>,
    pub und: LikelyTarget,
}

impl LikelyModel {
    /// The table invariant: every partition strictly ascending by key,
    /// every target fully specified.
    pub open spec fn wf(self) -> bool {
        &&& sorted_by_key2(self.language_script)
        &&& sorted_by_key2(self.language_region)
        &&& sorted_by_subtag(self.language)
        &&& sorted_by_key2(self.script_region)
        &&& sorted_by_subtag(self.script)
        &&& sorted_by_subtag(self.region)
        &&& targets_defined_k2(self.language_script)
        &&& targets_defined_k2(self.language_region)
        &&& targets_defined_k1(self.language)
        &&& targets_defined_k2(self.script_region)
        &&& targets_defined_k1(self.script)
        &&& targets_defined_k1(self.region)
        &&& target_defined(self.und)
    }
}

/// The likely-subtags data: partitions keyed by the defined fields of
/// the input, each mapping to the completion target for identifiers
/// that match the key; plus the single entry used when nothing at all
/// is defined. Loaded once, never mutated.
pub struct LikelySubtagsTable {
    /// Keyed by (language, script); fires when both are defined.
    pub language_script: Vec<((Subtag, Subtag), LikelyTarget)>,
    /// Keyed by (language, region); fires when both are defined.
    pub language_region: Vec<((Subtag, Subtag), LikelyTarget)>,
    /// Keyed by language alone.
    pub language: Vec<(Subtag, LikelyTarget)>,
    /// Keyed by (script, region); fires when the language is undefined.
    pub script_region: Vec<((Subtag, Subtag), LikelyTarget)>,
    /// Keyed by script alone; fires when the language is undefined.
    pub script: Vec<(Subtag, LikelyTarget)>,
    /// Keyed by region alone; fires when the language is undefined.
    pub region: Vec<(Subtag, LikelyTarget)>,
    /// The completion used when the input defines no field at all.
    pub und: LikelyTarget,
}

impl View for LikelySubtagsTable {
    type V = LikelyModel;

    open spec fn view(&self) -> LikelyModel {
        LikelyModel {
            language_script: self.language_script@,
            language_region: self.language_region@,
            language: self.language@,
            script_region: self.script_region@,
            script: self.script@,
            region: self.region@,
            und: self.und,
        }
    }
}

impl LikelySubtagsTable {
    /// Validates a table supplied by the provider: every partition must
    /// be strictly ascending by key and every target fully specified.
    pub fn try_new(
        language_script: Vec<((Subtag, Subtag), LikelyTarget)>,
        language_region: Vec<((Subtag, Subtag), LikelyTarget)>,
        language: Vec<(Subtag, LikelyTarget)>,
        script_region: Vec<((Subtag, Subtag), LikelyTarget)>,
        script: Vec<(Subtag, LikelyTarget)>,
        region: Vec<(Subtag, LikelyTarget)>,
        und: LikelyTarget,
    ) -> (r: Result<LikelySubtagsTable, TransformError>)
        ensures
            r matches Ok(t) ==> t@ == (LikelyModel {
                language_script: language_script@,
                language_region: language_region@,
                language: language@,
                script_region: script_region@,
                script: script@,
                region: region@,
                und,
            }) && t@.wf(),
            r is Err ==> !(LikelyModel {
                language_script: language_script@,
                language_region: language_region@,
                language: language@,
                script_region: script_region@,
                script: script@,
                region: region@,
                und,
            }).wf(),
    {
        let ok = check_sorted_key2(&language_script) && check_sorted_key2(&language_region)
            && check_sorted_subtag(&language) && check_sorted_key2(&script_region)
            && check_sorted_subtag(&script) && check_sorted_subtag(&region) && check_targets_k2(
            &language_script,
        ) && check_targets_k2(&language_region) && check_targets_k1(&language) && check_targets_k2(
            &script_region,
        ) && check_targets_k1(&script) && check_targets_k1(&region) && und.language.raw
            != UND_LANGUAGE_RAW;
        if !ok {
            return Err(TransformError::InternalInvariantViolation);
        }
        Ok(
            LikelySubtagsTable {
                language_script,
                language_region,
                language,
                script_region,
                script,
                region,
                und,
            },
        )
    }
}

fn check_targets_k1(v: &Vec<(Subtag, LikelyTarget)>) -> (r: bool)
    ensures
        r == targets_defined_k1(v@),
{
    let mut i: usize = 0;
    while i < v.len()
        invariant
            i <= v@.len(),
            forall|j: int| 0 <= j < i ==> target_defined((#[trigger] v@[j]).1),
        decreases v@.len() - i,
    {
        if v[i].1.language.raw == UND_LANGUAGE_RAW {
            return false;
        }
        i = i + 1;
    }
    true
}

fn check_targets_k2(v: &Vec<((Subtag, Subtag), LikelyTarget)>) -> (r: bool)
    ensures
        r == targets_defined_k2(v@),
{
    let mut i: usize = 0;
    while i < v.len()
        invariant
            i <= v@.len(),
            forall|j: int| 0 <= j < i ==> target_defined((#[trigger] v@[j]).1),
        decreases v@.len() - i,
    {
        if v[i].1.language.raw == UND_LANGUAGE_RAW {
            return false;
        }
        i = i + 1;
    }
    true
}

/// Completion: every field the input leaves undefined is taken from the
/// target; fields already defined are never overwritten, and variants
/// are untouched.
pub open spec fn spec_fill(id: IdModel, t: LikelyTarget) -> IdModel {
    IdModel {
        language: if id.language_defined() {
            id.language
        } else {
            t.language
        },
        script: if id.script is Some {
            id.script
        } else {
            Some(t.script)
        },
        region: if id.region is Some {
            id.region
        } else {
            Some(t.region)
        },
        variants: id.variants,
    }
}

/// What maximize returns: the partitions are probed in decreasing
/// specificity of the input's defined fields, the first match supplies
/// the missing fields, and an input with nothing to fill (or no
/// matching rule) is returned unchanged.
pub open spec fn spec_maximize(t: LikelyModel, id: IdModel) -> IdModel {
    if id.language_defined() {
        match (id.script, id.region) {
            (Option::Some(_), Option::Some(_)) => id,
            (Option::Some(s), Option::None) => match spec_find_key2(
                t.language_script,
                (id.language, s),
            ) {
                Option::Some(tg) => spec_fill(id, tg),
                Option::None => match spec_find_subtag(t.language, id.language) {
                    Option::Some(tg) => spec_fill(id, tg),
                    Option::None => id,
                },
            },
            (Option::None, Option::Some(r)) => match spec_find_key2(
                t.language_region,
                (id.language, r),
            ) {
                Option::Some(tg) => spec_fill(id, tg),
                Option::None => match spec_find_subtag(t.language, id.language) {
                    Option::Some(tg) => spec_fill(id, tg),
                    Option::None => id,
                },
            },
            (Option::None, Option::None) => match spec_find_subtag(t.language, id.language) {
                Option::Some(tg) => spec_fill(id, tg),
                Option::None => id,
            },
        }
    } else {
        match (id.script, id.region) {
            (Option::Some(s), Option::Some(r)) => match spec_find_key2(t.script_region, (s, r)) {
                Option::Some(tg) => spec_fill(id, tg),
                Option::None => match spec_find_subtag(t.script, s) {
                    Option::Some(tg) => spec_fill(id, tg),
                    Option::None => match spec_find_subtag(t.region, r) {
                        Option::Some(tg) => spec_fill(id, tg),
                        Option::None => spec_fill(id, t.und),
                    },
                },
            },
            (Option::Some(s), Option::None) => match spec_find_subtag(t.script, s) {
                Option::Some(tg) => spec_fill(id, tg),
                Option::None => spec_fill(id, t.und),
            },
            (Option::None, Option::Some(r)) => match spec_find_subtag(t.region, r) {
                Option::Some(tg) => spec_fill(id, tg),
                Option::None => spec_fill(id, t.und),
            },
            (Option::None, Option::None) => spec_fill(id, t.und),
        }
    }
}

fn fill(id: &LocaleIdentifier, t: &LikelyTarget) -> (r: LocaleIdentifier)
    ensures
        r@ == spec_fill(id@, *t),
{
    let r = LocaleIdentifier {
        language: if id.language.raw != UND_LANGUAGE_RAW {
            id.language
        } else {
            t.language
        },
        script: match id.script {
            Option::Some(s) => Some(s),
            Option::None => Some(t.script),
        },
        region: match id.region {
            Option::Some(g) => Some(g),
            Option::None => Some(t.region),
        },
        variants: copy_variants(&id.variants),
    };
    proof {
        assert(r@ =~= spec_fill(id@, *t));
    }
    r
}

/// Fills every undefined field of `id` with its most likely value.
///
/// The table partitions are probed in decreasing specificity of the
/// fields the input defines; the first match supplies values for the
/// undefined fields, defined fields are never overwritten, and the
/// variants are preserved unchanged. An input whose language, script
/// and region are all defined — or one no rule matches — comes back
/// unchanged.
pub fn maximize(t: &LikelySubtagsTable, id: &LocaleIdentifier) -> (r: LocaleIdentifier)
    requires
        t@.wf(),
    ensures
        r@ == spec_maximize(t@, id@),
{
    let lang_defined = id.language.raw != UND_LANGUAGE_RAW;
    if lang_defined && id.script.is_some() && id.region.is_some() {
        return id.duplicate();
    }
    if lang_defined {
        if let Option::Some(s) = id.script {
            if let Option::Some(i) = find_key2(&t.language_script, (id.language, s)) {
                return fill(id, &t.language_script[i].1);
            }
        } else if let Option::Some(g) = id.region {
            if let Option::Some(i) = find_key2(&t.language_region, (id.language, g)) {
                return fill(id, &t.language_region[i].1);
            }
        }
        if let Option::Some(i) = find_subtag(&t.language, id.language) {
            return fill(id, &t.language[i].1);
        }
        return id.duplicate();
    }
    if let Option::Some(s) = id.script {
        if let Option::Some(g) = id.region {
            if let Option::Some(i) = find_key2(&t.script_region, (s, g)) {
                return fill(id, &t.script_region[i].1);
            }
        }
        if let Option::Some(i) = find_subtag(&t.script, s) {
            return fill(id, &t.script[i].1);
        }
        if let Option::Some(g) = id.region {
            if let Option::Some(i) = find_subtag(&t.region, g) {
                return fill(id, &t.region[i].1);
            }
        }
        return fill(id, &t.und);
    }
    if let Option::Some(g) = id.region {
        if let Option::Some(i) = find_subtag(&t.region, g) {
            return fill(id, &t.region[i].1);
        }
    }
    fill(id, &t.und)
}

/// What minimize returns: starting from the maximized form, the region
/// and then the script are removed whenever maximizing the reduced
/// identifier still reproduces the maximized form; a removal that would
/// change it is never made.
pub open spec fn spec_minimize(t: LikelyModel, id: IdModel) -> IdModel {
    let max = spec_maximize(t, id);
    let base1 = if spec_maximize(t, IdModel { region: None, ..max }) == max {
        IdModel { region: None, ..max }
    } else {
        max
    };
    if spec_maximize(t, IdModel { script: None, ..base1 }) == max {
        IdModel { script: None, ..base1 }
    } else {
        base1
    }
}

/// Removes the subtags that maximize would restore: the shortest of the
/// probed reductions whose maximized form equals that of the input.
pub fn minimize(t: &LikelySubtagsTable, id: &LocaleIdentifier) -> (r: LocaleIdentifier)
    requires
        t@.wf(),
    ensures
        r@ == spec_minimize(t@, id@),
{
    let max = maximize(t, id);
    let cand_region = max.with_region_cleared();
    let m1 = maximize(t, &cand_region);
    let base1 = if m1 == max {
        cand_region
    } else {
        max.duplicate()
    };
    let cand_script = base1.with_script_cleared();
    let m2 = maximize(t, &cand_script);
    if m2 == max {
        cand_script
    } else {
        base1
    }
}

} // verus!
