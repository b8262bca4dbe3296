//! Subtags: the short ASCII codes that language identifiers are made of.

use vstd::prelude::*;

verus! {

/// The packed form of the sentinel language code `und`, which marks an
/// undefined language.
pub const UND_LANGUAGE_RAW: u64 = 0x756e_6400_0000_0000;

/// The packed form of the language code `sgn`, the generic sign-language
/// code that enables the sign-language region alias rules.
pub const SGN_LANGUAGE_RAW: u64 = 0x7367_6e00_0000_0000;

/// One subtag of a language identifier: a language, script, region,
/// variant or subdivision code of at most eight ASCII bytes, packed
/// big-endian into a `u64`, left-justified and zero-padded.
///
/// For codes made of non-zero ASCII bytes the packing keeps both equality
/// and byte-wise lexicographic order: two packed values are equal exactly
/// when the byte strings are, and `raw` orders the way the byte strings
/// do. Table partitions therefore sort and search by `raw` alone, and a
/// lookup copies a single machine word instead of allocating.
#[derive(Clone, Copy, Debug, PartialEq, Eq, Structural)]
pub struct Subtag {
    pub raw: u64,
}

pub open spec fn is_lower_alpha(b: u8) -> bool {
    97 <= b && b <= 122
}

pub open spec fn is_upper_alpha(b: u8) -> bool {
    65 <= b && b <= 90
}

pub open spec fn is_ascii_digit(b: u8) -> bool {
    48 <= b && b <= 57
}

pub open spec fn is_lower_alnum(b: u8) -> bool {
    is_lower_alpha(b) || is_ascii_digit(b)
}

/// A language code: two or three lowercase ASCII letters.
pub open spec fn is_language_code(s: Seq<u8>) -> bool {
    &&& 2 <= s.len() <= 3
    &&& forall|i: int| 0 <= i < s.len() ==> is_lower_alpha(#[trigger] s[i])
}

/// A script code: four ASCII letters in title case.
pub open spec fn is_script_code(s: Seq<u8>) -> bool {
    &&& s.len() == 4
    &&& is_upper_alpha(s[0])
    &&& forall|i: int| 1 <= i < s.len() ==> is_lower_alpha(#[trigger] s[i])
}

/// A region code: two uppercase ASCII letters or three ASCII digits.
pub open spec fn is_region_code(s: Seq<u8>) -> bool {
    ||| (s.len() == 2 && forall|i: int| 0 <= i < s.len() ==> is_upper_alpha(#[trigger] s[i]))
    ||| (s.len() == 3 && forall|i: int| 0 <= i < s.len() ==> is_ascii_digit(#[trigger] s[i]))
}

/// A variant code: four to eight lowercase ASCII letters or digits.
pub open spec fn is_variant_code(s: Seq<u8>) -> bool {
    &&& 4 <= s.len() <= 8
    &&& forall|i: int| 0 <= i < s.len() ==> is_lower_alnum(#[trigger] s[i])
}

/// A subdivision code: one to eight lowercase ASCII letters or digits.
pub open spec fn is_subdivision_code(s: Seq<u8>) -> bool {
    &&& 1 <= s.len() <= 8
    &&& forall|i: int| 0 <= i < s.len() ==> is_lower_alnum(#[trigger] s[i])
}

/// The byte at position `i`, taking the zero padding beyond the end of
/// the code.
pub open spec fn byte_at(s: Seq<u8>, i: int) -> u8 {
    if 0 <= i < s.len() {
        s[i]
    } else {
        0
    }
}

/// The packed value of the first `n` byte positions of `s` (bytes past
/// the end of `s` count as zero).
pub open spec fn pack_prefix(s: Seq<u8>, n: int) -> int
    decreases n,
{
    if n <= 0 {
        0
    } else {
        pack_prefix(s, n - 1) * 256 + byte_at(s, n - 1)
    }
}

/// The packed `u64` image of a code of at most eight bytes: the bytes in
/// big-endian order, left-justified, zero-padded.
pub open spec fn pack(s: Seq<u8>) -> int {
    pack_prefix(s, 8)
}

pub open spec fn pow256(n: int) -> int
    decreases n,
{
    if n <= 0 {
        1
    } else {
        256 * pow256(n - 1)
    }
}

proof fn lemma_pow256_mono(a: int, b: int)
    requires
        0 <= a <= b,
    ensures
        pow256(a) <= pow256(b),
    decreases b,
{
    if a < b {
        lemma_pow256_mono(a, b - 1);
        assert(pow256(b) == 256 * pow256(b - 1));
        assert(pow256(b - 1) >= 1) by {
            lemma_pow256_pos(b - 1);
        }
    }
}

proof fn lemma_pow256_pos(n: int)
    ensures
        pow256(n) >= 1,
    decreases n,
{
    if n > 0 {
        lemma_pow256_pos(n - 1);
    }
}

/// Packs the first eight byte positions of `bytes` (zero-padded) into a
/// `u64`.
fn pack_bytes(bytes: &[u8]) -> (r: u64)
    requires
        bytes@.len() <= 8,
    ensures
        r as int == pack(bytes@),
{
    let mut acc: u64 = 0;
    let mut i: usize = 0;
    proof {
        reveal_with_fuel(pow256, 9);
    }
    while i < 8
        invariant
            i <= 8,
            bytes@.len() <= 8,
            acc as int == pack_prefix(bytes@, i as int),
            acc < pow256(i as int),
        decreases 8 - i,
    {
        let b: u8 = if i < bytes.len() {
            bytes[i]
        } else {
            0
        };
        proof {
            assert(b == byte_at(bytes@, i as int));
            lemma_pow256_mono(i as int, 7);
            assert(pow256(7) == 0x100_0000_0000_0000) by {
                reveal_with_fuel(pow256, 8);
            }
            assert(acc as int * 256 + b <= (pow256(i as int) - 1) * 256 + 255);
        }
        acc = acc * 256 + (b as u64);
        i = i + 1;
    }
    acc
}

impl Subtag {
    /// The sentinel subtag `und`, marking an undefined language.
    pub fn und() -> (r: Subtag)
        ensures
            r.raw == UND_LANGUAGE_RAW,
    {
        Subtag { raw: UND_LANGUAGE_RAW }
    }

    /// Builds a language subtag: two or three lowercase ASCII letters
    /// (`und` is accepted and acts as the undefined sentinel).
    pub fn language(bytes: &[u8]) -> (r: Option<Subtag>)
        ensures
            r is Some <==> is_language_code(bytes@),
            r matches Some(t) ==> t.raw as int == pack(bytes@),
    {
        if bytes.len() < 2 || bytes.len() > 3 {
            return None;
        }
        if !all_lower_alpha(bytes) {
            return None;
        }
        Some(Subtag { raw: pack_bytes(bytes) })
    }

    /// Builds a script subtag: four ASCII letters in title case.
    pub fn script(bytes: &[u8]) -> (r: Option<Subtag>)
        ensures
            r is Some <==> is_script_code(bytes@),
            r matches Some(t) ==> t.raw as int == pack(bytes@),
    {
        if bytes.len() != 4 {
            return None;
        }
        if !(bytes[0] >= 65 && bytes[0] <= 90) {
            return None;
        }
        let mut i: usize = 1;
        while i < 4
            invariant
                1 <= i <= 4,
                bytes@.len() == 4,
                forall|j: int| 1 <= j < i ==> is_lower_alpha(#[trigger] bytes@[j]),
            decreases 4 - i,
        {
            if !(bytes[i] >= 97 && bytes[i] <= 122) {
                return None;
            }
            i = i + 1;
        }
        Some(Subtag { raw: pack_bytes(bytes) })
    }

    /// Builds a region subtag: two uppercase ASCII letters or three
    /// ASCII digits.
    pub fn region(bytes: &[u8]) -> (r: Option<Subtag>)
        ensures
            r is Some <==> is_region_code(bytes@),
            r matches Some(t) ==> t.raw as int == pack(bytes@),
    {
        if bytes.len() == 2 {
            if (bytes[0] >= 65 && bytes[0] <= 90) && (bytes[1] >= 65 && bytes[1] <= 90) {
                return Some(Subtag { raw: pack_bytes(bytes) });
            }
            return None;
        }
        if bytes.len() == 3 {
            if (bytes[0] >= 48 && bytes[0] <= 57) && (bytes[1] >= 48 && bytes[1] <= 57) && (
            bytes[2] >= 48 && bytes[2] <= 57) {
                return Some(Subtag { raw: pack_bytes(bytes) });
            }
            return None;
        }
        None
    }

    /// Builds a variant subtag: four to eight lowercase ASCII letters or
    /// digits.
    pub fn variant(bytes: &[u8]) -> (r: Option<Subtag>)
        ensures
            r is Some <==> is_variant_code(bytes@),
            r matches Some(t) ==> t.raw as int == pack(bytes@),
    {
        if bytes.len() < 4 || bytes.len() > 8 {
            return None;
        }
        if !all_lower_alnum(bytes) {
            return None;
        }
        Some(Subtag { raw: pack_bytes(bytes) })
    }

    /// Builds a subdivision subtag: one to eight lowercase ASCII letters
    /// or digits.
    pub fn subdivision(bytes: &[u8]) -> (r: Option<Subtag>)
        ensures
            r is Some <==> is_subdivision_code(bytes@),
            r matches Some(t) ==> t.raw as int == pack(bytes@),
    {
        if bytes.len() < 1 || bytes.len() > 8 {
            return None;
        }
        if !all_lower_alnum(bytes) {
            return None;
        }
        Some(Subtag { raw: pack_bytes(bytes) })
    }

    /// True of the undefined-language sentinel.
    pub fn is_und(&self) -> (r: bool)
        ensures
            r == (self.raw == UND_LANGUAGE_RAW),
    {
        self.raw == UND_LANGUAGE_RAW
    }
}

fn all_lower_alpha(bytes: &[u8]) -> (r: bool)
    ensures
        r == forall|i: int| 0 <= i < bytes@.len() ==> is_lower_alpha(#[trigger] bytes@[i]),
{
    let mut i: usize = 0;
    while i < bytes.len()
        invariant
            i <= bytes@.len(),
            forall|j: int| 0 <= j < i ==> is_lower_alpha(#[trigger] bytes@[j]),
        decreases bytes@.len() - i,
    {
        if !(bytes[i] >= 97 && bytes[i] <= 122) {
            return false;
        }
        i = i + 1;
    }
    true
}

fn all_lower_alnum(bytes: &[u8]) -> (r: bool)
    ensures
        r == forall|i: int| 0 <= i < bytes@.len() ==> is_lower_alnum(#[trigger] bytes@[i]),
{
    let mut i: usize = 0;
    while i < bytes.len()
        invariant
            i <= bytes@.len(),
            forall|j: int| 0 <= j < i ==> is_lower_alnum(#[trigger] bytes@[j]),
        decreases bytes@.len() - i,
    {
        let b = bytes[i];
        if !((b >= 97 && b <= 122) || (b >= 48 && b <= 57)) {
            return false;
        }
        i = i + 1;
    }
    true
}

} // verus!
