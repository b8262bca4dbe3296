//! Language identifiers: language + optional script + optional region +
//! variants, together with the equality and ordering that the table
//! lookups rely on.

use vstd::prelude::*;
use crate::subtag::{Subtag, UND_LANGUAGE_RAW};

verus! {

/// The mathematical value of a [`LocaleIdentifier`]: the same four
/// fields, with the variant list abstracted to a sequence.
#[verifier::ext_equal]
pub ghost struct IdModel {
    pub language: Subtag,
    pub script: Option<Subtag>,
    pub region: Option<Subtag>,
    pub variants: Seq<Subtag>,
}

impl IdModel {
    /// The language field counts as defined exactly when it is not the
    /// `und` sentinel; script and region are defined when present.
    pub open spec fn language_defined(self) -> bool {
        self.language.raw != UND_LANGUAGE_RAW
    }
}

/// An in-memory language identifier: a language code (`und` when
/// undefined), an optional script, an optional region, and an ordered
/// list of distinct variants. Absence of script or region is tracked
/// explicitly and is distinct from every concrete value.
#[derive(Debug)]
pub struct LocaleIdentifier {
    pub language: Subtag,
    pub script: Option<Subtag>,
    pub region: Option<Subtag>,
    pub variants: Vec<Subtag>,
}

impl View for LocaleIdentifier {
    type V = IdModel;

    open spec fn view(&self) -> IdModel {
        IdModel {
            language: self.language,
            script: self.script,
            region: self.region,
            variants: self.variants@,
        }
    }
}

/// No variant occurs twice.
pub open spec fn distinct_variants(s: Seq<Subtag>) -> bool {
    forall|i: int, j: int| 0 <= i < j < s.len() ==> s[i] != s[j]
}

impl LocaleIdentifier {
    /// Assembles an identifier from already-validated subtags. The
    /// variant list must be free of duplicates; `None` is returned when
    /// it is not.
    pub fn try_new(
        language: Subtag,
        script: Option<Subtag>,
        region: Option<Subtag>,
        variants: Vec<Subtag>,
    ) -> (r: Option<LocaleIdentifier>)
        ensures
            r is Some <==> distinct_variants(variants@),
            r matches Some(id) ==> id@ == (IdModel {
                language,
                script,
                region,
                variants: variants@,
            }),
    {
        let mut i: usize = 0;
        while i < variants.len()
            invariant
                i <= variants@.len(),
                forall|p: int, q: int| 0 <= p < q < variants@.len() && q < i ==> variants@[p]
                    != variants@[q],
            decreases variants@.len() - i,
        {
            let mut j: usize = 0;
            while j < i
                invariant
                    j <= i < variants@.len(),
                    forall|p: int| 0 <= p < j ==> variants@[p] != variants@[i as int],
                decreases i - j,
            {
                if variants[j].raw == variants[i].raw {
                    return None;
                }
                j = j + 1;
            }
            i = i + 1;
        }
        Some(LocaleIdentifier { language, script, region, variants })
    }

    /// An identifier with nothing defined: language `und`, no script,
    /// no region, no variants.
    pub fn root() -> (r: LocaleIdentifier)
        ensures
            r@ == (IdModel {
                language: Subtag { raw: UND_LANGUAGE_RAW },
                script: None,
                region: None,
                variants: Seq::<Subtag>::empty(),
            }),
    {
        let r = LocaleIdentifier {
            language: Subtag { raw: UND_LANGUAGE_RAW },
            script: None,
            region: None,
            variants: Vec::new(),
        };
        proof {
            assert(r@.variants =~= Seq::<Subtag>::empty());
        }
        r
    }

    /// A field-for-field copy.
    pub fn duplicate(&self) -> (r: LocaleIdentifier)
        ensures
            r@ == self@,
    {
        let r = LocaleIdentifier {
            language: self.language,
            script: self.script,
            region: self.region,
            variants: copy_variants(&self.variants),
        };
        proof {
            assert(r@ =~= self@);
        }
        r
    }

    /// A copy with the region removed.
    pub fn with_region_cleared(&self) -> (r: LocaleIdentifier)
        ensures
            r@ == (IdModel { region: None, ..self@ }),
    {
        let r = LocaleIdentifier {
            language: self.language,
            script: self.script,
            region: None,
            variants: copy_variants(&self.variants),
        };
        proof {
            assert(r@ =~= IdModel { region: None, ..self@ });
        }
        r
    }

    /// A copy with the script removed.
    pub fn with_script_cleared(&self) -> (r: LocaleIdentifier)
        ensures
            r@ == (IdModel { script: None, ..self@ }),
    {
        let r = LocaleIdentifier {
            language: self.language,
            script: None,
            region: self.region,
            variants: copy_variants(&self.variants),
        };
        proof {
            assert(r@ =~= IdModel { script: None, ..self@ });
        }
        r
    }
}

/// An element-for-element copy of a variant list.
pub fn copy_variants(v: &Vec<Subtag>) -> (r: Vec<Subtag>)
    ensures
        r@ == v@,
{
    let mut r: Vec<Subtag> = Vec::new();
    let mut i: usize = 0;
    while i < v.len()
        invariant
            i <= v@.len(),
            r@ == v@.subrange(0, i as int),
        decreases v@.len() - i,
    {
        r.push(v[i]);
        proof {
            assert(r@ =~= v@.subrange(0, i as int + 1));
        }
        i = i + 1;
    }
    proof {
        assert(r@ =~= v@);
    }
    r
}

impl PartialEq for LocaleIdentifier {
    fn eq(&self, other: &Self) -> (r: bool) {
        if self.language.raw != other.language.raw {
            return false;
        }
        if cmp_opt_subtag(&self.script, &other.script) != 0 {
            proof {
                assert(self@.script != other@.script);
            }
            return false;
        }
        if cmp_opt_subtag(&self.region, &other.region) != 0 {
            proof {
                assert(self@.region != other@.region);
            }
            return false;
        }
        if self.variants.len() != other.variants.len() {
            proof {
                assert(self@ == other@ ==> self@.variants.len() == other@.variants.len());
            }
            return false;
        }
        let mut i: usize = 0;
        while i < self.variants.len()
            invariant
                i <= self@.variants.len(),
                self@.variants.len() == other@.variants.len(),
                forall|j: int| 0 <= j < i ==> self@.variants[j] == other@.variants[j],
            decreases self@.variants.len() - i,
        {
            if self.variants[i].raw != other.variants[i].raw {
                proof {
                    assert(self@.variants != other@.variants);
                }
                return false;
            }
            i = i + 1;
        }
        proof {
            assert(self@.variants =~= other@.variants);
            assert(self@ =~= other@);
        }
        true
    }
}

impl vstd::std_specs::cmp::PartialEqSpecImpl for LocaleIdentifier {
    open spec fn obeys_eq_spec() -> bool {
        true
    }

    open spec fn eq_spec(&self, other: &Self) -> bool {
        self@ == other@
    }
}

/// Three-way comparison of optional subtags: absence orders before any
/// value, values order by their packed bytes.
pub open spec fn spec_cmp_opt(a: Option<Subtag>, b: Option<Subtag>) -> int {
    match (a, b) {
        (Option::None, Option::None) => 0,
        (Option::None, Option::Some(_)) => -1,
        (Option::Some(_), Option::None) => 1,
        (Option::Some(x), Option::Some(y)) => if x.raw < y.raw {
            -1
        } else if x.raw > y.raw {
            1
        } else {
            0
        },
    }
}

/// Three-way lexicographic comparison of variant lists.
pub open spec fn spec_cmp_vars(a: Seq<Subtag>, b: Seq<Subtag>) -> int
    decreases a.len(),
{
    if a.len() == 0 && b.len() == 0 {
        0
    } else if a.len() == 0 {
        -1
    } else if b.len() == 0 {
        1
    } else if a[0].raw < b[0].raw {
        -1
    } else if a[0].raw > b[0].raw {
        1
    } else {
        spec_cmp_vars(a.drop_first(), b.drop_first())
    }
}

/// Three-way comparison of identifiers: by language, then script, then
/// region, then variants. This is the order the identifier-keyed table
/// partitions are sorted in.
pub open spec fn spec_cmp_id(a: IdModel, b: IdModel) -> int {
    if a.language.raw < b.language.raw {
        -1
    } else if a.language.raw > b.language.raw {
        1
    } else if spec_cmp_opt(a.script, b.script) != 0 {
        spec_cmp_opt(a.script, b.script)
    } else if spec_cmp_opt(a.region, b.region) != 0 {
        spec_cmp_opt(a.region, b.region)
    } else {
        spec_cmp_vars(a.variants, b.variants)
    }
}

pub proof fn lemma_cmp_vars_refl(a: Seq<Subtag>)
    ensures
        spec_cmp_vars(a, a) == 0,
    decreases a.len(),
{
    if a.len() > 0 {
        lemma_cmp_vars_refl(a.drop_first());
    }
}

pub proof fn lemma_cmp_vars_zero(a: Seq<Subtag>, b: Seq<Subtag>)
    requires
        spec_cmp_vars(a, b) == 0,
    ensures
        a == b,
    decreases a.len(),
{
    if a.len() == 0 {
        assert(b.len() == 0);
        assert(a =~= b);
    } else {
        lemma_cmp_vars_zero(a.drop_first(), b.drop_first());
        assert(a.drop_first() == b.drop_first());
        assert(a.len() == b.len());
        assert(a[0] == b[0]);
        assert forall|i: int| 0 <= i < a.len() implies a[i] == b[i] by {
            if i > 0 {
                assert(a[i] == a.drop_first()[i - 1]);
                assert(b[i] == b.drop_first()[i - 1]);
            }
        }
        assert(a =~= b);
    }
}

pub proof fn lemma_cmp_vars_flip(a: Seq<Subtag>, b: Seq<Subtag>)
    ensures
        spec_cmp_vars(a, b) == -spec_cmp_vars(b, a),
    decreases a.len(),
{
    if a.len() > 0 && b.len() > 0 {
        lemma_cmp_vars_flip(a.drop_first(), b.drop_first());
    }
}

pub proof fn lemma_cmp_vars_trans(a: Seq<Subtag>, b: Seq<Subtag>, c: Seq<Subtag>)
    requires
        spec_cmp_vars(a, b) < 0,
        spec_cmp_vars(b, c) < 0,
    ensures
        spec_cmp_vars(a, c) < 0,
    decreases a.len(),
{
    if a.len() > 0 && b.len() > 0 && c.len() > 0 {
        if a[0].raw == b[0].raw && b[0].raw == c[0].raw {
            lemma_cmp_vars_trans(a.drop_first(), b.drop_first(), c.drop_first());
        }
    }
}

pub proof fn lemma_cmp_id_refl(a: IdModel)
    ensures
        spec_cmp_id(a, a) == 0,
{
    lemma_cmp_vars_refl(a.variants);
}

pub proof fn lemma_cmp_id_zero(a: IdModel, b: IdModel)
    requires
        spec_cmp_id(a, b) == 0,
    ensures
        a == b,
{
    lemma_cmp_vars_zero(a.variants, b.variants);
    assert(a =~= b);
}

pub proof fn lemma_cmp_id_flip(a: IdModel, b: IdModel)
    ensures
        spec_cmp_id(a, b) == -spec_cmp_id(b, a),
{
    lemma_cmp_vars_flip(a.variants, b.variants);
}

pub proof fn lemma_cmp_id_trans(a: IdModel, b: IdModel, c: IdModel)
    requires
        spec_cmp_id(a, b) < 0,
        spec_cmp_id(b, c) < 0,
    ensures
        spec_cmp_id(a, c) < 0,
{
    if a.language.raw == b.language.raw && b.language.raw == c.language.raw
        && spec_cmp_opt(a.script, b.script) == 0 && spec_cmp_opt(b.script, c.script) == 0
        && spec_cmp_opt(a.region, b.region) == 0 && spec_cmp_opt(b.region, c.region) == 0 {
        lemma_cmp_vars_trans(a.variants, b.variants, c.variants);
    }
}

/// Three-way comparison of optional subtags, executable form.
pub fn cmp_opt_subtag(a: &Option<Subtag>, b: &Option<Subtag>) -> (r: i8)
    ensures
        r as int == spec_cmp_opt(*a, *b),
{
    match (a, b) {
        (Option::None, Option::None) => 0,
        (Option::None, Option::Some(_)) => -1,
        (Option::Some(_), Option::None) => 1,
        (Option::Some(x), Option::Some(y)) => {
            if x.raw < y.raw {
                -1
            } else if x.raw > y.raw {
                1
            } else {
                0
            }
        },
    }
}

/// Three-way comparison of variant lists, executable form.
pub fn cmp_variants(a: &Vec<Subtag>, b: &Vec<Subtag>) -> (r: i8)
    ensures
        r as int == spec_cmp_vars(a@, b@),
{
    let mut i: usize = 0;
    proof {
        assert(a@.skip(0) =~= a@);
        assert(b@.skip(0) =~= b@);
    }
    loop
        invariant
            i <= a@.len(),
            i <= b@.len(),
            spec_cmp_vars(a@, b@) == spec_cmp_vars(a@.skip(i as int), b@.skip(i as int)),
        decreases a@.len() - i,
    {
        proof {
            if i < a@.len() {
                assert(a@.skip(i as int)[0] == a@[i as int]);
            }
            if i < b@.len() {
                assert(b@.skip(i as int)[0] == b@[i as int]);
            }
        }
        if i >= a.len() {
            if i >= b.len() {
                return 0;
            }
            return -1;
        }
        if i >= b.len() {
            return 1;
        }
        if a[i].raw < b[i].raw {
            return -1;
        }
        if a[i].raw > b[i].raw {
            return 1;
        }
        proof {
            assert(a@.skip(i as int).drop_first() =~= a@.skip(i as int + 1));
            assert(b@.skip(i as int).drop_first() =~= b@.skip(i as int + 1));
        }
        i = i + 1;
    }
}

/// Three-way comparison of identifiers, executable form.
pub fn cmp_id(a: &LocaleIdentifier, b: &LocaleIdentifier) -> (r: i8)
    ensures
        r as int == spec_cmp_id(a@, b@),
{
    if a.language.raw < b.language.raw {
        return -1;
    }
    if a.language.raw > b.language.raw {
        return 1;
    }
    let s = cmp_opt_subtag(&a.script, &b.script);
    if s != 0 {
        return s;
    }
    let g = cmp_opt_subtag(&a.region, &b.region);
    if g != 0 {
        return g;
    }
    cmp_variants(&a.variants, &b.variants)
}

} // verus!
