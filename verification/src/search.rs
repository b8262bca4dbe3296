//! Sorted partitions and the binary searches over them.
//!
//! Every table partition is a vector of key/value entries sorted
//! strictly ascending by key. Lookup is a binary search: O(log n)
//! comparisons, no allocation, returning the index of the entry whose
//! key equals the probe.

use vstd::prelude::*;
use crate::identifier::{
    spec_cmp_id, cmp_id, lemma_cmp_id_refl, lemma_cmp_id_zero, lemma_cmp_id_flip,
    lemma_cmp_id_trans, IdModel, LocaleIdentifier,
};
use crate::subtag::Subtag;

verus! {

// ---------------------------------------------------------------------
// Single-subtag keys
// ---------------------------------------------------------------------
/// Entries strictly ascending by single-subtag key.
pub open spec fn sorted_by_subtag<V>(s: Seq<(Subtag, V)>) -> bool {
    forall|i: int, j: int| 0 <= i < j < s.len() ==> s[i].0.raw < s[j].0.raw
}

/// The value at the first entry whose key is `k`, if any.
pub open spec fn spec_find_subtag<V>(s: Seq<(Subtag, V)>, k: Subtag) -> Option<V>
    decreases s.len(),
{
    if s.len() == 0 {
        None
    } else if s[0].0 == k {
        Some(s[0].1)
    } else {
        spec_find_subtag(s.drop_first(), k)
    }
}

pub proof fn lemma_find_subtag_at<V>(s: Seq<(Subtag, V)>, k: Subtag, i: int)
    requires
        0 <= i < s.len(),
        s[i].0 == k,
        forall|j: int| 0 <= j < i ==> s[j].0 != k,
    ensures
        spec_find_subtag(s, k) == Some(s[i].1),
    decreases i,
{
    if i > 0 {
        lemma_find_subtag_at(s.drop_first(), k, i - 1);
    }
}

pub proof fn lemma_find_subtag_none<V>(s: Seq<(Subtag, V)>, k: Subtag)
    requires
        forall|j: int| 0 <= j < s.len() ==> s[j].0 != k,
    ensures
        spec_find_subtag(s, k) is None,
    decreases s.len(),
{
    if s.len() > 0 {
        lemma_find_subtag_none(s.drop_first(), k);
    }
}

pub proof fn lemma_find_subtag_value<V>(s: Seq<(Subtag, V)>, k: Subtag)
    requires
        spec_find_subtag(s, k) is Some,
    ensures
        exists|i: int| 0 <= i < s.len() && spec_find_subtag(s, k) == Some((#[trigger] s[i]).1),
    decreases s.len(),
{
    if s.len() > 0 && s[0].0 != k {
        lemma_find_subtag_value(s.drop_first(), k);
        let i = choose|i: int| 0 <= i < s.drop_first().len() && spec_find_subtag(
            s.drop_first(),
            k,
        ) == Some((#[trigger] s.drop_first()[i]).1);
        assert(s[i + 1] == s.drop_first()[i]);
    }
}

proof fn lemma_chain_subtag<V>(s: Seq<(Subtag, V)>, i: int, j: int)
    requires
        forall|p: int| 0 <= p < s.len() - 1 ==> (#[trigger] s[p].0).raw < s[p + 1].0.raw,
        0 <= i < j < s.len(),
    ensures
        s[i].0.raw < s[j].0.raw,
    decreases j - i,
{
    if i + 1 < j {
        lemma_chain_subtag(s, i, j - 1);
    }
}

/// Checks that the entries are strictly ascending by key.
pub fn check_sorted_subtag<V>(v: &Vec<(Subtag, V)>) -> (r: bool)
    ensures
        r == sorted_by_subtag(v@),
{
    let mut i: usize = 1;
    while i < v.len()
        invariant
            1 <= i,
            i <= v@.len() || v@.len() == 0,
            forall|p: int| 0 <= p < i - 1 && p < v@.len() - 1 ==> (#[trigger] v@[p].0).raw < v@[p
                + 1].0.raw,
        decreases v@.len() - i,
    {
        if v[i - 1].0.raw >= v[i].0.raw {
            return false;
        }
        i = i + 1;
    }
    proof {
        assert forall|p: int, q: int| 0 <= p < q < v@.len() implies v@[p].0.raw < v@[q].0.raw by {
            lemma_chain_subtag(v@, p, q);
        }
    }
    true
}

/// Binary search by single-subtag key: the index of the entry whose key
/// is `k`, if one exists.
pub fn find_subtag<V>(entries: &Vec<(Subtag, V)>, k: Subtag) -> (r: Option<usize>)
    requires
        sorted_by_subtag(entries@),
    ensures
        match r {
            Some(i) => i < entries@.len() && entries@[i as int].0 == k && spec_find_subtag(
                entries@,
                k,
            ) == Some(entries@[i as int].1),
            None => spec_find_subtag(entries@, k) is None,
        },
{
    let mut lo: usize = 0;
    let mut hi: usize = entries.len();
    while lo < hi
        invariant
            lo <= hi <= entries@.len(),
            sorted_by_subtag(entries@),
            forall|i: int| 0 <= i < lo ==> entries@[i].0.raw < k.raw,
            forall|i: int| hi <= i < entries@.len() ==> entries@[i].0.raw > k.raw,
        decreases hi - lo,
    {
        let mid = lo + (hi - lo) / 2;
        let e = &entries[mid];
        if e.0.raw < k.raw {
            lo = mid + 1;
        } else if e.0.raw > k.raw {
            hi = mid;
        } else {
            proof {
                assert(entries@[mid as int].0 == k);
                lemma_find_subtag_at(entries@, k, mid as int);
            }
            return Some(mid);
        }
    }
    proof {
        lemma_find_subtag_none(entries@, k);
    }
    None
}

// ---------------------------------------------------------------------
// Two-subtag composite keys
// ---------------------------------------------------------------------
/// Lexicographic order on two-subtag composite keys.
pub open spec fn key2_lt(a: (Subtag, Subtag), b: (Subtag, Subtag)) -> bool {
    a.0.raw < b.0.raw || (a.0.raw == b.0.raw && a.1.raw < b.1.raw)
}

/// Entries strictly ascending by composite key.
pub open spec fn sorted_by_key2<V>(s: Seq<((Subtag, Subtag), V)>) -> bool {
    forall|i: int, j: int| 0 <= i < j < s.len() ==> key2_lt(#[trigger] s[i].0, #[trigger] s[j].0)
}

/// The value at the first entry whose composite key is `k`, if any.
pub open spec fn spec_find_key2<V>(s: Seq<((Subtag, Subtag), V)>, k: (Subtag, Subtag)) -> Option<
    V,
>
    decreases s.len(),
{
    if s.len() == 0 {
        None
    } else if s[0].0 == k {
        Some(s[0].1)
    } else {
        spec_find_key2(s.drop_first(), k)
    }
}

pub proof fn lemma_find_key2_at<V>(s: Seq<((Subtag, Subtag), V)>, k: (Subtag, Subtag), i: int)
    requires
        0 <= i < s.len(),
        s[i].0 == k,
        forall|j: int| 0 <= j < i ==> s[j].0 != k,
    ensures
        spec_find_key2(s, k) == Some(s[i].1),
    decreases i,
{
    if i > 0 {
        lemma_find_key2_at(s.drop_first(), k, i - 1);
    }
}

pub proof fn lemma_find_key2_none<V>(s: Seq<((Subtag, Subtag), V)>, k: (Subtag, Subtag))
    requires
        forall|j: int| 0 <= j < s.len() ==> s[j].0 != k,
    ensures
        spec_find_key2(s, k) is None,
    decreases s.len(),
{
    if s.len() > 0 {
        lemma_find_key2_none(s.drop_first(), k);
    }
}

pub proof fn lemma_find_key2_value<V>(s: Seq<((Subtag, Subtag), V)>, k: (Subtag, Subtag))
    requires
        spec_find_key2(s, k) is Some,
    ensures
        exists|i: int| 0 <= i < s.len() && spec_find_key2(s, k) == Some((#[trigger] s[i]).1),
    decreases s.len(),
{
    if s.len() > 0 && s[0].0 != k {
        lemma_find_key2_value(s.drop_first(), k);
        let i = choose|i: int| 0 <= i < s.drop_first().len() && spec_find_key2(
            s.drop_first(),
            k,
        ) == Some((#[trigger] s.drop_first()[i]).1);
        assert(s[i + 1] == s.drop_first()[i]);
    }
}

proof fn lemma_chain_key2<V>(s: Seq<((Subtag, Subtag), V)>, i: int, j: int)
    requires
        forall|p: int| 0 <= p < s.len() - 1 ==> key2_lt(#[trigger] s[p].0, s[p + 1].0),
        0 <= i < j < s.len(),
    ensures
        key2_lt(s[i].0, s[j].0),
    decreases j - i,
{
    if i + 1 < j {
        lemma_chain_key2(s, i, j - 1);
    }
}

/// Checks that the entries are strictly ascending by composite key.
pub fn check_sorted_key2<V>(v: &Vec<((Subtag, Subtag), V)>) -> (r: bool)
    ensures
        r == sorted_by_key2(v@),
{
    let mut i: usize = 1;
    while i < v.len()
        invariant
            1 <= i,
            i <= v@.len() || v@.len() == 0,
            forall|p: int| 0 <= p < i - 1 && p < v@.len() - 1 ==> key2_lt(
                #[trigger] v@[p].0,
                v@[p + 1].0,
            ),
        decreases v@.len() - i,
    {
        let prev = &v[i - 1];
        let cur = &v[i];
        let lt = prev.0.0.raw < cur.0.0.raw || (prev.0.0.raw == cur.0.0.raw && prev.0.1.raw
            < cur.0.1.raw);
        if !lt {
            return false;
        }
        i = i + 1;
    }
    proof {
        assert forall|p: int, q: int| 0 <= p < q < v@.len() implies key2_lt(
            #[trigger] v@[p].0,
            #[trigger] v@[q].0,
        ) by {
            lemma_chain_key2(v@, p, q);
        }
    }
    true
}

/// Binary search by composite key.
pub fn find_key2<V>(entries: &Vec<((Subtag, Subtag), V)>, k: (Subtag, Subtag)) -> (r: Option<
    usize,
>)
    requires
        sorted_by_key2(entries@),
    ensures
        match r {
            Some(i) => i < entries@.len() && entries@[i as int].0 == k && spec_find_key2(
                entries@,
                k,
            ) == Some(entries@[i as int].1),
            None => spec_find_key2(entries@, k) is None,
        },
{
    let mut lo: usize = 0;
    let mut hi: usize = entries.len();
    while lo < hi
        invariant
            lo <= hi <= entries@.len(),
            sorted_by_key2(entries@),
            forall|i: int| 0 <= i < lo ==> key2_lt(#[trigger] entries@[i].0, k),
            forall|i: int| hi <= i < entries@.len() ==> key2_lt(k, #[trigger] entries@[i].0),
        decreases hi - lo,
    {
        let mid = lo + (hi - lo) / 2;
        let e = &entries[mid];
        let before = e.0.0.raw < k.0.raw || (e.0.0.raw == k.0.raw && e.0.1.raw < k.1.raw);
        if before {
            lo = mid + 1;
        } else {
            let after = k.0.raw < e.0.0.raw || (k.0.raw == e.0.0.raw && k.1.raw < e.0.1.raw);
            if after {
                hi = mid;
            } else {
                proof {
                    assert(entries@[mid as int].0 == k);
                    lemma_find_key2_at(entries@, k, mid as int);
                }
                return Some(mid);
            }
        }
    }
    proof {
        lemma_find_key2_none(entries@, k);
    }
    None
}

// ---------------------------------------------------------------------
// Full-identifier keys
// ---------------------------------------------------------------------
/// The model of an identifier-keyed partition: each entry abstracted to
/// its pair of identifier models.
pub open spec fn id_pairs(s: Seq<(LocaleIdentifier, LocaleIdentifier)>) -> Seq<
    (IdModel, IdModel),
> {
    s.map_values(|p: (LocaleIdentifier, LocaleIdentifier)| (p.0@, p.1@))
}

/// Entries strictly ascending by identifier key.
pub open spec fn sorted_by_id(s: Seq<(IdModel, IdModel)>) -> bool {
    forall|i: int, j: int| 0 <= i < j < s.len() ==> spec_cmp_id(#[trigger] s[i].0, #[trigger] s[j].0)
        < 0
}

/// The value at the first entry whose identifier key is `k`, if any.
pub open spec fn spec_find_id(s: Seq<(IdModel, IdModel)>, k: IdModel) -> Option<IdModel>
    decreases s.len(),
{
    if s.len() == 0 {
        None
    } else if s[0].0 == k {
        Some(s[0].1)
    } else {
        spec_find_id(s.drop_first(), k)
    }
}

pub proof fn lemma_find_id_at(s: Seq<(IdModel, IdModel)>, k: IdModel, i: int)
    requires
        0 <= i < s.len(),
        s[i].0 == k,
        forall|j: int| 0 <= j < i ==> s[j].0 != k,
    ensures
        spec_find_id(s, k) == Some(s[i].1),
    decreases i,
{
    if i > 0 {
        lemma_find_id_at(s.drop_first(), k, i - 1);
    }
}

pub proof fn lemma_find_id_none(s: Seq<(IdModel, IdModel)>, k: IdModel)
    requires
        forall|j: int| 0 <= j < s.len() ==> s[j].0 != k,
    ensures
        spec_find_id(s, k) is None,
    decreases s.len(),
{
    if s.len() > 0 {
        lemma_find_id_none(s.drop_first(), k);
    }
}

proof fn lemma_chain_id(s: Seq<(IdModel, IdModel)>, i: int, j: int)
    requires
        forall|p: int| 0 <= p < s.len() - 1 ==> spec_cmp_id(#[trigger] s[p].0, s[p + 1].0) < 0,
        0 <= i < j < s.len(),
    ensures
        spec_cmp_id(s[i].0, s[j].0) < 0,
    decreases j - i,
{
    if i + 1 < j {
        lemma_chain_id(s, i, j - 1);
        lemma_cmp_id_trans(s[i].0, s[j - 1].0, s[j].0);
    }
}

/// Checks that the entries are strictly ascending by identifier key.
pub fn check_sorted_id(v: &Vec<(LocaleIdentifier, LocaleIdentifier)>) -> (r: bool)
    ensures
        r == sorted_by_id(id_pairs(v@)),
{
    let ghost m = id_pairs(v@);
    let mut i: usize = 1;
    while i < v.len()
        invariant
            1 <= i,
            i <= v@.len() || v@.len() == 0,
            m == id_pairs(v@),
            m.len() == v@.len(),
            forall|p: int| 0 <= p < i - 1 && p < m.len() - 1 ==> spec_cmp_id(
                #[trigger] m[p].0,
                m[p + 1].0,
            ) < 0,
        decreases v@.len() - i,
    {
        let c = cmp_id(&v[i - 1].0, &v[i].0);
        if c >= 0 {
            proof {
                assert(m[i - 1].0 == v@[i - 1].0@);
                assert(m[i as int].0 == v@[i as int].0@);
            }
            return false;
        }
        i = i + 1;
    }
    proof {
        assert forall|p: int, q: int| 0 <= p < q < m.len() implies spec_cmp_id(
            #[trigger] m[p].0,
            #[trigger] m[q].0,
        ) < 0 by {
            lemma_chain_id(m, p, q);
        }
    }
    true
}

/// Binary search by identifier key.
pub fn find_id(entries: &Vec<(LocaleIdentifier, LocaleIdentifier)>, k: &LocaleIdentifier) -> (r:
    Option<usize>)
    requires
        sorted_by_id(id_pairs(entries@)),
    ensures
        match r {
            Some(i) => i < entries@.len() && entries@[i as int].0@ == k@ && spec_find_id(
                id_pairs(entries@),
                k@,
            ) == Some(entries@[i as int].1@),
            None => spec_find_id(id_pairs(entries@), k@) is None,
        },
{
    let ghost m = id_pairs(entries@);
    let mut lo: usize = 0;
    let mut hi: usize = entries.len();
    while lo < hi
        invariant
            lo <= hi <= entries@.len(),
            m == id_pairs(entries@),
            m.len() == entries@.len(),
            sorted_by_id(m),
            forall|i: int| 0 <= i < lo ==> spec_cmp_id(#[trigger] m[i].0, k@) < 0,
            forall|i: int| hi <= i < entries@.len() ==> spec_cmp_id(#[trigger] m[i].0, k@) > 0,
        decreases hi - lo,
    {
        let mid = lo + (hi - lo) / 2;
        let c = cmp_id(&entries[mid].0, k);
        proof {
            assert(m[mid as int].0 == entries@[mid as int].0@);
        }
        if c < 0 {
            proof {
                assert forall|i: int| 0 <= i <= mid implies spec_cmp_id(#[trigger] m[i].0, k@)
                    < 0 by {
                    if i < mid {
                        lemma_cmp_id_trans(m[i].0, m[mid as int].0, k@);
                    }
                }
            }
            lo = mid + 1;
        } else if c > 0 {
            proof {
                assert forall|i: int| mid <= i < m.len() implies spec_cmp_id(
                    #[trigger] m[i].0,
                    k@,
                ) > 0 by {
                    if i > mid {
                        lemma_cmp_id_flip(m[mid as int].0, k@);
                        lemma_cmp_id_trans(k@, m[mid as int].0, m[i].0);
                        lemma_cmp_id_flip(k@, m[i].0);
                    }
                }
            }
            hi = mid;
        } else {
            proof {
                lemma_cmp_id_zero(m[mid as int].0, k@);
                assert forall|j: int| 0 <= j < mid implies m[j].0 != k@ by {
                    if m[j].0 == k@ {
                        lemma_cmp_id_refl(k@);
                    }
                }
                lemma_find_id_at(m, k@, mid as int);
            }
            return Some(mid);
        }
    }
    proof {
        assert forall|j: int| 0 <= j < m.len() implies m[j].0 != k@ by {
            if m[j].0 == k@ {
                lemma_cmp_id_refl(k@);
            }
        }
        lemma_find_id_none(m, k@);
    }
    None
}

} // verus!
