//! Canonicalize, maximize and minimize over CLDR-shaped test tables.

use locale_canonicalizer::alias::AliasTable;
use locale_canonicalizer::canonical::canonicalize_with_cap;
use locale_canonicalizer::canonicalizer::Canonicalizer;
use locale_canonicalizer::errors::TransformError;
use locale_canonicalizer::identifier::LocaleIdentifier;
use locale_canonicalizer::likely::{LikelySubtagsTable, LikelyTarget};
use locale_canonicalizer::subtag::Subtag;

fn lang(s: &[u8]) -> Subtag {
    Subtag::language(s).unwrap()
}

fn script(s: &[u8]) -> Subtag {
    Subtag::script(s).unwrap()
}

fn region(s: &[u8]) -> Subtag {
    Subtag::region(s).unwrap()
}

fn variant(s: &[u8]) -> Subtag {
    Subtag::variant(s).unwrap()
}

fn ident(
    l: &[u8],
    s: Option<&[u8]>,
    r: Option<&[u8]>,
    vs: &[&[u8]],
) -> LocaleIdentifier {
    LocaleIdentifier::try_new(
        lang(l),
        s.map(script),
        r.map(region),
        vs.iter().map(|v| variant(v)).collect(),
    )
    .unwrap()
}

fn target(l: &[u8], s: &[u8], r: &[u8]) -> LikelyTarget {
    LikelyTarget { language: lang(l), script: script(s), region: region(r) }
}

/// Likely-subtags data shaped like the CLDR-derived table.
fn test_likely() -> LikelySubtagsTable {
    LikelySubtagsTable::try_new(
        // language_script, keys sorted: en < zh
        vec![
            ((lang(b"en"), script(b"Latn")), target(b"en", b"Latn", b"US")),
            ((lang(b"zh"), script(b"Hant")), target(b"zh", b"Hant", b"TW")),
        ],
        // language_region
        vec![((lang(b"zh"), region(b"TW")), target(b"zh", b"Hant", b"TW"))],
        // language, keys sorted: en < ru < zh
        vec![
            (lang(b"en"), target(b"en", b"Latn", b"US")),
            (lang(b"ru"), target(b"ru", b"Cyrl", b"RU")),
            (lang(b"zh"), target(b"zh", b"Hans", b"CN")),
        ],
        // script_region
        vec![((script(b"Latn"), region(b"US")), target(b"en", b"Latn", b"US"))],
        // script
        vec![(script(b"Latn"), target(b"en", b"Latn", b"US"))],
        // region
        vec![(region(b"US"), target(b"en", b"Latn", b"US"))],
        // und
        target(b"en", b"Latn", b"US"),
    )
    .unwrap()
}

/// Alias data shaped like the CLDR-derived table.
fn test_alias() -> AliasTable {
    AliasTable::try_new(
        // language (full-tag rewrites), keys sorted: aab < ab < art
        vec![
            (ident(b"aab", None, Some(b"ZW"), &[]), ident(b"ccc", None, None, &[])),
            (ident(b"ab", None, Some(b"GB"), &[]), ident(b"cd", None, None, &[])),
            (ident(b"art", None, None, &[b"lojban"]), ident(b"jbo", None, None, &[])),
        ],
        // language_variants
        vec![(
            ident(b"ja", None, None, &[b"hepburn", b"heploc"]),
            ident(b"ja", None, None, &[b"hepburn", b"alalc97"]),
        )],
        // sgn_region
        vec![(region(b"DE"), ident(b"gsg", None, None, &[]))],
        // language_len2
        vec![(lang(b"iw"), ident(b"he", None, None, &[]))],
        // language_len3, keys sorted: abc < mri
        vec![
            (lang(b"abc"), ident(b"ab", None, None, &[])),
            (lang(b"mri"), ident(b"mi", None, None, &[])),
        ],
        // script
        vec![(script(b"Qaai"), script(b"Zinh"))],
        // region_alpha, keys sorted: BU < ZW
        vec![(region(b"BU"), region(b"MM")), (region(b"ZW"), region(b"AA"))],
        // region_num
        vec![(region(b"230"), region(b"ET"))],
        // complex_region
        vec![(region(b"SU"), vec![region(b"RU"), region(b"AM")])],
        // variant, keys sorted: heploc < polytoni
        vec![
            (variant(b"heploc"), variant(b"alalc97")),
            (variant(b"polytoni"), variant(b"polyton")),
        ],
        // subdivision
        vec![(Subtag::subdivision(b"fi01").unwrap(), Subtag::subdivision(b"ax01").unwrap())],
    )
    .unwrap()
}

#[test]
fn canonicalize_region_alias() {
    // canonicalize("en-BU"): the deprecated region code is rewritten.
    let at = test_alias();
    let lt = test_likely();
    let c = Canonicalizer::new(&at, &lt);
    let got = c.canonicalize(&ident(b"en", None, Some(b"BU"), &[])).unwrap();
    assert_eq!(got, ident(b"en", None, Some(b"MM"), &[]));
}

#[test]
fn canonicalize_numeric_region_alias() {
    let at = test_alias();
    let lt = test_likely();
    let c = Canonicalizer::new(&at, &lt);
    let got = c.canonicalize(&ident(b"am", None, Some(b"230"), &[])).unwrap();
    assert_eq!(got, ident(b"am", None, Some(b"ET"), &[]));
}

#[test]
fn canonicalize_unmatched_is_identity() {
    let at = test_alias();
    let lt = test_likely();
    let c = Canonicalizer::new(&at, &lt);
    let got = c.canonicalize(&ident(b"fr", None, None, &[])).unwrap();
    assert_eq!(got, ident(b"fr", None, None, &[]));
}

#[test]
fn canonicalize_is_idempotent_on_values() {
    let at = test_alias();
    let lt = test_likely();
    let c = Canonicalizer::new(&at, &lt);
    let once = c.canonicalize(&ident(b"en", None, Some(b"BU"), &[])).unwrap();
    let twice = c.canonicalize(&once).unwrap();
    assert_eq!(twice, once);
}

#[test]
fn canonicalize_sign_language_region() {
    // sgn-DE goes through the sgn_region partition, not the generic
    // region rules, and the region is consumed.
    let at = test_alias();
    let lt = test_likely();
    let c = Canonicalizer::new(&at, &lt);
    let got = c.canonicalize(&ident(b"sgn", None, Some(b"DE"), &[])).unwrap();
    assert_eq!(got, ident(b"gsg", None, None, &[]));
}

#[test]
fn canonicalize_deprecated_language_codes() {
    let at = test_alias();
    let lt = test_likely();
    let c = Canonicalizer::new(&at, &lt);
    let got2 = c.canonicalize(&ident(b"iw", None, None, &[])).unwrap();
    assert_eq!(got2, ident(b"he", None, None, &[]));
    // The three-letter rule fires before region rules are considered;
    // afterwards the rewrite restarts from the top and the region rule
    // still fires.
    let got3 = c.canonicalize(&ident(b"mri", None, Some(b"BU"), &[])).unwrap();
    assert_eq!(got3, ident(b"mi", None, Some(b"MM"), &[]));
}

#[test]
fn canonicalize_full_tag_before_region() {
    // aab-ZW matches a full-tag rule; had the region rule ZW → AA run
    // first, the full-tag rule could never have matched.
    let at = test_alias();
    let lt = test_likely();
    let c = Canonicalizer::new(&at, &lt);
    let got = c.canonicalize(&ident(b"aab", None, Some(b"ZW"), &[])).unwrap();
    assert_eq!(got, ident(b"ccc", None, None, &[]));
}

#[test]
fn canonicalize_restart_exposes_full_tag_rule() {
    // abc-GB: the three-letter language rule rewrites abc → ab, and the
    // restarted pass then matches the full-tag rule ab-GB → cd.
    let at = test_alias();
    let lt = test_likely();
    let c = Canonicalizer::new(&at, &lt);
    let got = c.canonicalize(&ident(b"abc", None, Some(b"GB"), &[])).unwrap();
    assert_eq!(got, ident(b"cd", None, None, &[]));
}

#[test]
fn canonicalize_legacy_full_tag() {
    let at = test_alias();
    let lt = test_likely();
    let c = Canonicalizer::new(&at, &lt);
    let got = c.canonicalize(&ident(b"art", None, None, &[b"lojban"])).unwrap();
    assert_eq!(got, ident(b"jbo", None, None, &[]));
}

#[test]
fn canonicalize_language_variants_pair() {
    let at = test_alias();
    let lt = test_likely();
    let c = Canonicalizer::new(&at, &lt);
    let got = c
        .canonicalize(&ident(b"ja", None, None, &[b"hepburn", b"heploc"]))
        .unwrap();
    assert_eq!(got, ident(b"ja", None, None, &[b"hepburn", b"alalc97"]));
}

#[test]
fn canonicalize_variant_alias() {
    let at = test_alias();
    let lt = test_likely();
    let c = Canonicalizer::new(&at, &lt);
    let got = c.canonicalize(&ident(b"el", None, None, &[b"polytoni"])).unwrap();
    assert_eq!(got, ident(b"el", None, None, &[b"polyton"]));
    // The variant rule also fires for other languages (the
    // language+variants rule above it is keyed to ja).
    let got2 = c.canonicalize(&ident(b"en", None, None, &[b"heploc"])).unwrap();
    assert_eq!(got2, ident(b"en", None, None, &[b"alalc97"]));
}

#[test]
fn canonicalize_variant_alias_drops_duplicate() {
    // When the replacement variant is already present, the deprecated
    // one is removed instead of duplicated.
    let at = test_alias();
    let lt = test_likely();
    let c = Canonicalizer::new(&at, &lt);
    let got = c
        .canonicalize(&ident(b"el", None, None, &[b"polyton", b"polytoni"]))
        .unwrap();
    assert_eq!(got, ident(b"el", None, None, &[b"polyton"]));
}

#[test]
fn canonicalize_script_alias() {
    let at = test_alias();
    let lt = test_likely();
    let c = Canonicalizer::new(&at, &lt);
    let got = c
        .canonicalize(&ident(b"en", Some(b"Qaai"), None, &[]))
        .unwrap();
    assert_eq!(got, ident(b"en", Some(b"Zinh"), None, &[]));
}

#[test]
fn complex_region_uses_likely_subtags() {
    // ru-SU: the likely region for ru is RU, which is a candidate.
    let at = test_alias();
    let lt = test_likely();
    let c = Canonicalizer::new(&at, &lt);
    let got = c.canonicalize(&ident(b"ru", None, Some(b"SU"), &[])).unwrap();
    assert_eq!(got, ident(b"ru", None, Some(b"RU"), &[]));
}

#[test]
fn complex_region_falls_back_to_first_candidate() {
    // en-SU: the likely region for en is US, not a candidate, so the
    // first candidate wins.
    let at = test_alias();
    let lt = test_likely();
    let c = Canonicalizer::new(&at, &lt);
    let got = c.canonicalize(&ident(b"en", None, Some(b"SU"), &[])).unwrap();
    assert_eq!(got, ident(b"en", None, Some(b"RU"), &[]));
}

#[test]
fn maximize_en() {
    let at = test_alias();
    let lt = test_likely();
    let c = Canonicalizer::new(&at, &lt);
    let got = c.maximize(&ident(b"en", None, None, &[]));
    assert_eq!(got, ident(b"en", Some(b"Latn"), Some(b"US"), &[]));
}

#[test]
fn maximize_zh_branches_differently() {
    let at = test_alias();
    let lt = test_likely();
    let c = Canonicalizer::new(&at, &lt);
    let got = c.maximize(&ident(b"zh", None, None, &[]));
    assert_eq!(got, ident(b"zh", Some(b"Hans"), Some(b"CN"), &[]));
}

#[test]
fn maximize_language_script_pair() {
    let at = test_alias();
    let lt = test_likely();
    let c = Canonicalizer::new(&at, &lt);
    let got = c.maximize(&ident(b"zh", Some(b"Hant"), None, &[]));
    assert_eq!(got, ident(b"zh", Some(b"Hant"), Some(b"TW"), &[]));
}

#[test]
fn maximize_without_language() {
    let at = test_alias();
    let lt = test_likely();
    let c = Canonicalizer::new(&at, &lt);
    let got = c.maximize(&ident(b"und", Some(b"Latn"), Some(b"US"), &[]));
    assert_eq!(got, ident(b"en", Some(b"Latn"), Some(b"US"), &[]));
    let got2 = c.maximize(&ident(b"und", None, None, &[]));
    assert_eq!(got2, ident(b"en", Some(b"Latn"), Some(b"US"), &[]));
}

#[test]
fn maximize_script_only_and_region_only() {
    let at = test_alias();
    let lt = test_likely();
    let c = Canonicalizer::new(&at, &lt);
    let got = c.maximize(&ident(b"und", Some(b"Latn"), None, &[]));
    assert_eq!(got, ident(b"en", Some(b"Latn"), Some(b"US"), &[]));
    let got2 = c.maximize(&ident(b"und", None, Some(b"US"), &[]));
    assert_eq!(got2, ident(b"en", Some(b"Latn"), Some(b"US"), &[]));
}

#[test]
fn maximize_keeps_defined_fields_and_variants() {
    let at = test_alias();
    let lt = test_likely();
    let c = Canonicalizer::new(&at, &lt);
    let got = c.maximize(&ident(b"en", None, None, &[b"1996"]));
    assert_eq!(got, ident(b"en", Some(b"Latn"), Some(b"US"), &[b"1996"]));
    let full = ident(b"en", Some(b"Hant"), Some(b"GB"), &[]);
    assert_eq!(c.maximize(&full), full);
}

#[test]
fn maximize_is_idempotent_on_values() {
    let at = test_alias();
    let lt = test_likely();
    let c = Canonicalizer::new(&at, &lt);
    let once = c.maximize(&ident(b"zh", None, None, &[]));
    let twice = c.maximize(&once);
    assert_eq!(twice, once);
}

#[test]
fn minimize_round_trips_en() {
    // minimize(maximize("en")) gives back "en".
    let at = test_alias();
    let lt = test_likely();
    let c = Canonicalizer::new(&at, &lt);
    let max = c.maximize(&ident(b"en", None, None, &[]));
    let min = c.minimize(&max).unwrap();
    assert_eq!(min, ident(b"en", None, None, &[]));
    let remax = c.maximize(&min);
    assert_eq!(remax, max);
}

#[test]
fn minimize_keeps_needed_script() {
    // zh-Hant-TW reduces to zh-Hant: dropping the script would maximize
    // to zh-Hans-CN, so it stays.
    let at = test_alias();
    let lt = test_likely();
    let c = Canonicalizer::new(&at, &lt);
    let min = c.minimize(&ident(b"zh", Some(b"Hant"), Some(b"TW"), &[])).unwrap();
    assert_eq!(min, ident(b"zh", Some(b"Hant"), None, &[]));
}

#[test]
fn minimize_canonicalizes_first() {
    // en-BU canonicalizes to en-MM; its maximized form is en-Latn-MM,
    // and only the script is redundant.
    let at = test_alias();
    let lt = test_likely();
    let c = Canonicalizer::new(&at, &lt);
    let min = c.minimize(&ident(b"en", None, Some(b"BU"), &[])).unwrap();
    assert_eq!(min, ident(b"en", None, Some(b"MM"), &[]));
}

#[test]
fn minimize_never_adds_fields() {
    let at = test_alias();
    let lt = test_likely();
    let c = Canonicalizer::new(&at, &lt);
    let input = ident(b"ru", None, None, &[]);
    let max = c.maximize(&input);
    let min = c.minimize(&input).unwrap();
    assert_eq!(min.language, max.language);
    assert!(min.script.is_none() || min.script == max.script);
    assert!(min.region.is_none() || min.region == max.region);
    assert_eq!(min.variants, input.variants);
}

#[test]
fn minimize_of_unknown_language_is_identity() {
    // No likely rule matches, so no reduction preserves the maximized
    // form and nothing is removed.
    let at = test_alias();
    let lt = test_likely();
    let c = Canonicalizer::new(&at, &lt);
    let input = ident(b"xx", Some(b"Grek"), Some(b"GB"), &[]);
    assert_eq!(c.minimize(&input).unwrap(), input);
}

#[test]
fn alias_for_single_step() {
    let at = test_alias();
    let lt = test_likely();
    let got = at.alias_for(&lt, &ident(b"en", None, Some(b"BU"), &[]));
    assert_eq!(got, Some(ident(b"en", None, Some(b"MM"), &[])));
    // No rule fires for an already-canonical identifier, and
    // canonicalize leaves such an identifier unchanged.
    assert_eq!(at.alias_for(&lt, &ident(b"fr", None, None, &[])), None);
}

#[test]
fn configurable_cap_bounds_the_passes() {
    let at = test_alias();
    let lt = test_likely();
    // mri-BU needs two rule applications; a cap of one is exceeded.
    let input = ident(b"mri", None, Some(b"BU"), &[]);
    assert_eq!(
        canonicalize_with_cap(&at, &lt, &input, 1),
        Err(TransformError::InternalInvariantViolation)
    );
    assert_eq!(
        canonicalize_with_cap(&at, &lt, &input, 2),
        Ok(ident(b"mi", None, Some(b"MM"), &[]))
    );
}

#[test]
fn cap_exceeded_is_invariant_violation() {
    // A two-cycle in the two-letter language aliases never converges;
    // the engine must stop at the pass cap and report the violation.
    let at = AliasTable::try_new(
        vec![],
        vec![],
        vec![],
        vec![
            (lang(b"aa"), ident(b"bb", None, None, &[])),
            (lang(b"bb"), ident(b"aa", None, None, &[])),
        ],
        vec![],
        vec![],
        vec![],
        vec![],
        vec![],
        vec![],
        vec![],
    )
    .unwrap();
    let lt = test_likely();
    let c = Canonicalizer::new(&at, &lt);
    let got = c.canonicalize(&ident(b"aa", None, None, &[]));
    assert_eq!(got, Err(TransformError::InternalInvariantViolation));
    let got_min = c.minimize(&ident(b"aa", None, None, &[]));
    assert_eq!(got_min, Err(TransformError::InternalInvariantViolation));
    // Identifiers outside the cycle are still fine.
    assert!(c.canonicalize(&ident(b"en", None, None, &[])).is_ok());
}
