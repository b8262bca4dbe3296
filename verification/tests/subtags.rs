//! Subtag and identifier construction.

use locale_canonicalizer::errors::ProviderError;
use locale_canonicalizer::identifier::LocaleIdentifier;
use locale_canonicalizer::subtag::Subtag;

fn lang(s: &[u8]) -> Subtag {
    Subtag::language(s).unwrap()
}

fn variant(s: &[u8]) -> Subtag {
    Subtag::variant(s).unwrap()
}

#[test]
fn language_shapes() {
    assert!(Subtag::language(b"en").is_some());
    assert!(Subtag::language(b"und").is_some());
    assert!(Subtag::language(b"mri").is_some());
    assert!(Subtag::language(b"e").is_none());
    assert!(Subtag::language(b"EN").is_none());
    assert!(Subtag::language(b"engl").is_none());
    assert!(Subtag::language(b"e1").is_none());
}

#[test]
fn script_shapes() {
    assert!(Subtag::script(b"Latn").is_some());
    assert!(Subtag::script(b"Hant").is_some());
    assert!(Subtag::script(b"latn").is_none());
    assert!(Subtag::script(b"LATN").is_none());
    assert!(Subtag::script(b"Lat").is_none());
    assert!(Subtag::script(b"Latin").is_none());
}

#[test]
fn region_shapes() {
    assert!(Subtag::region(b"US").is_some());
    assert!(Subtag::region(b"419").is_some());
    assert!(Subtag::region(b"us").is_none());
    assert!(Subtag::region(b"41").is_none());
    assert!(Subtag::region(b"4199").is_none());
    assert!(Subtag::region(b"U1").is_none());
}

#[test]
fn variant_shapes() {
    assert!(Subtag::variant(b"1996").is_some());
    assert!(Subtag::variant(b"polyton").is_some());
    assert!(Subtag::variant(b"alalc97").is_some());
    assert!(Subtag::variant(b"abc").is_none());
    assert!(Subtag::variant(b"POLYTON").is_none());
    assert!(Subtag::variant(b"verylongly1").is_none());
}

#[test]
fn subdivision_shapes() {
    assert!(Subtag::subdivision(b"usca").is_some());
    assert!(Subtag::subdivision(b"a").is_some());
    assert!(Subtag::subdivision(b"").is_none());
    assert!(Subtag::subdivision(b"USCA").is_none());
    assert!(Subtag::subdivision(b"toolonging").is_none());
}

#[test]
fn packing_keeps_byte_order() {
    // The packed form orders the way the byte strings do, including
    // the prefix case.
    assert!(lang(b"aa").raw < lang(b"aab").raw);
    assert!(lang(b"aab").raw < lang(b"ab").raw);
    assert!(lang(b"en").raw < lang(b"zh").raw);
    assert_eq!(lang(b"en"), lang(b"en"));
    assert_ne!(lang(b"en"), lang(b"eng"));
}

#[test]
fn und_sentinel() {
    let u = Subtag::und();
    assert_eq!(u, lang(b"und"));
    assert!(u.is_und());
    assert!(!lang(b"en").is_und());
}

#[test]
fn root_identifier_has_nothing_defined() {
    let root = LocaleIdentifier::root();
    assert_eq!(
        root,
        LocaleIdentifier::try_new(Subtag::und(), None, None, vec![]).unwrap()
    );
    assert!(root.script.is_none());
    assert!(root.region.is_none());
    assert!(root.variants.is_empty());
}

#[test]
fn identifier_rejects_duplicate_variants() {
    let v = variant(b"polyton");
    assert!(LocaleIdentifier::try_new(lang(b"el"), None, None, vec![v, v]).is_none());
    assert!(LocaleIdentifier::try_new(lang(b"el"), None, None, vec![v]).is_some());
    assert!(
        LocaleIdentifier::try_new(lang(b"el"), None, None, vec![v, variant(b"1996")]).is_some()
    );
}

#[test]
fn identifier_equality_by_fields() {
    let a = LocaleIdentifier::try_new(lang(b"en"), None, Some(Subtag::region(b"US").unwrap()), vec![])
        .unwrap();
    let b = LocaleIdentifier::try_new(lang(b"en"), None, Some(Subtag::region(b"US").unwrap()), vec![])
        .unwrap();
    let c = LocaleIdentifier::try_new(lang(b"en"), None, None, vec![]).unwrap();
    assert_eq!(a, b);
    assert_ne!(a, c);
}

#[test]
fn provider_error_variants_are_distinct() {
    assert_ne!(
        ProviderError::MissingResourceKey,
        ProviderError::MissingResourceOptions
    );
}
