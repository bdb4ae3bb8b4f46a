//! Tests for the version algebra and the ruleset language.

use package_server::acl::{Relation, Ruleset, V};
use package_server::text::{numeric, ws};
use package_server::version::{Suffix, SuffixType, Version};

fn v(input: &str) -> Version {
    Version::parser(input.as_bytes()).unwrap().0
}

fn rs(input: &str) -> Ruleset {
    Ruleset::parser(input.as_bytes()).unwrap()
}

#[test]
fn test_parser() {
    assert_eq!(
        Version::parser(b"1.0.0"),
        Some((Version::new(1, 0, 0, None), b"".as_slice()))
    );
    assert_eq!(
        Version::parser(b"2.0.0"),
        Some((Version::new(2, 0, 0, None), b"".as_slice()))
    );
    assert_eq!(
        Version::parser(b"1.2.3"),
        Some((Version::new(1, 2, 3, None), b"".as_slice()))
    );
    assert_eq!(
        Version::parser(b"2021.07.21"),
        Some((Version::new(2021, 7, 21, None), b"".as_slice()))
    );
    assert_eq!(
        Version::parser(b"13.3.7 pl 42"),
        Some((
            Version::new(13, 3, 7, Some(Suffix::new(SuffixType::PatchLevel, 42))),
            b"".as_slice()
        ))
    );
    assert_eq!(
        Version::parser(b"1.0.0 Foobar 4"),
        Some((Version::new(1, 0, 0, None), b"Foobar 4".as_slice()))
    );
    assert!(Version::parser(b"1 0 0").is_none());
    assert!(Version::parser(b"1.0_0").is_none());
    assert!(Version::parser(b"1-0-0").is_none());
    assert!(Version::parser(b"1.0").is_none());
}

#[test]
fn suffix_test_parser() {
    assert!(Suffix::parser(b"alpha").is_none());
    assert!(Suffix::parser(b"a").is_none());
    assert!(Suffix::parser(b"rc").is_none());
    assert!(Suffix::parser(b"foo alpha 3").is_none());
    assert!(Suffix::parser(b"alberta").is_none());
    assert!(Suffix::parser(b"boot").is_none());
    assert!(Suffix::parser(b"develop").is_none());
    assert!(Suffix::parser(b"Foobar 4").is_none());
    assert_eq!(
        Suffix::parser(b"alpha 3"),
        Some((Suffix::new(SuffixType::Alpha, 3), b"".as_slice()))
    );
    assert_eq!(
        Suffix::parser(b"BeTa 1337"),
        Some((Suffix::new(SuffixType::Beta, 1337), b"".as_slice()))
    );
    assert_eq!(
        Suffix::parser(b"RC 2"),
        Some((Suffix::new(SuffixType::ReleaseCandidate, 2), b"".as_slice()))
    );
    assert_eq!(
        Suffix::parser(b"Dev 20210724 Unstable"),
        Some((Suffix::new(SuffixType::Dev, 20210724), b"Unstable".as_slice()))
    );
    assert_eq!(
        Suffix::parser(b"pl 3 "),
        Some((Suffix::new(SuffixType::PatchLevel, 3), b"".as_slice()))
    );
}

#[test]
fn suffix_type_test_parser() {
    assert_eq!(
        SuffixType::parser(b"alpha"),
        Some((SuffixType::Alpha, b"".as_slice()))
    );
    assert_eq!(SuffixType::parser(b"a"), Some((SuffixType::Alpha, b"".as_slice())));
    assert_eq!(
        SuffixType::parser(b"rc"),
        Some((SuffixType::ReleaseCandidate, b"".as_slice()))
    );
    assert_eq!(
        SuffixType::parser(b"alpha 3"),
        Some((SuffixType::Alpha, b" 3".as_slice()))
    );
    assert_eq!(
        SuffixType::parser(b"alpha 3)"),
        Some((SuffixType::Alpha, b" 3)".as_slice()))
    );
    assert_eq!(
        SuffixType::parser(b"alpha)"),
        Some((SuffixType::Alpha, b")".as_slice()))
    );
    assert_eq!(
        SuffixType::parser(b"alberta"),
        Some((SuffixType::Alpha, b"lberta".as_slice()))
    );
    assert_eq!(
        SuffixType::parser(b"boot"),
        Some((SuffixType::Beta, b"oot".as_slice()))
    );
    assert_eq!(
        SuffixType::parser(b"develop"),
        Some((SuffixType::Dev, b"elop".as_slice()))
    );
    assert_eq!(
        SuffixType::parser(b"derp"),
        Some((SuffixType::Dev, b"erp".as_slice()))
    );
    assert!(SuffixType::parser(b"foo alpha 3").is_none());
}

#[test]
fn test_numeric() {
    assert_eq!(numeric(b"10"), Some((10, b"".as_slice())));
    assert_eq!(numeric(b"943587"), Some((943587, b"".as_slice())));
    assert_eq!(numeric(b"345fg"), Some((345, b"fg".as_slice())));
    assert!(numeric(b"abc123").is_none());
}

#[test]
fn test_whitespace_helper() {
    assert_eq!(ws(b"  x y"), b"x y");
    assert_eq!(ws(b"x"), b"x".as_slice());
    assert_eq!(ws(b""), b"".as_slice());
}

#[test]
fn relation_test_parser() {
    assert_eq!(
        Relation::parser(b"<="),
        Some((Relation::LessOrEquals, b"".as_slice()))
    );
    assert_eq!(Relation::parser(b"<"), Some((Relation::Less, b"".as_slice())));
    assert_eq!(
        Relation::parser(b">="),
        Some((Relation::GreaterOrEquals, b"".as_slice()))
    );
    assert_eq!(Relation::parser(b">"), Some((Relation::Greater, b"".as_slice())));
    assert_eq!(
        Relation::parser(b"<= 1.0.0"),
        Some((Relation::LessOrEquals, b"1.0.0".as_slice()))
    );
    assert_eq!(
        Relation::parser(b"< 1.0.0"),
        Some((Relation::Less, b"1.0.0".as_slice()))
    );
    assert_eq!(
        Relation::parser(b">= 1.0.0"),
        Some((Relation::GreaterOrEquals, b"1.0.0".as_slice()))
    );
    assert_eq!(
        Relation::parser(b"> 1.0.0"),
        Some((Relation::Greater, b"1.0.0".as_slice()))
    );
    assert!(Relation::parser(b"==").is_none());
    assert!(Relation::parser(b"!=").is_none());
    assert!(Relation::parser(b"~").is_none());
    assert!(Relation::parser(b"1.0.0 >= 0.0.1").is_none());
}

#[test]
fn v_test_parser() {
    assert_eq!(V::parser(b"$v"), Some((V::VersionInput, b"".as_slice())));
    assert_eq!(
        V::parser(b"$v >= 1.0.0"),
        Some((V::VersionInput, b" >= 1.0.0".as_slice()))
    );
    assert_eq!(
        V::parser(b"13.3.7 pl 42"),
        Some((
            V::Version(Version::new(13, 3, 7, Some(Suffix::new(SuffixType::PatchLevel, 42)))),
            b"".as_slice()
        ))
    );
    assert_eq!(
        V::parser(b"1.0.0"),
        Some((V::Version(Version::new(1, 0, 0, None)), b"".as_slice()))
    );
    assert_eq!(
        V::parser(b"2.0.0"),
        Some((V::Version(Version::new(2, 0, 0, None)), b"".as_slice()))
    );
}

#[test]
fn ruleset_test_parser() {
    assert!(Ruleset::parser(b"*").is_some());
    assert!(Ruleset::parser(b"$v ~ beta").is_some());
    assert!(Ruleset::parser(b"$v !~ beta").is_some());
    assert!(Ruleset::parser(b"$v !~ beta || $v !~ alpha").is_some());
    assert!(Ruleset::parser(b"$v ~ beta || $v ~ alpha").is_some());
    assert!(Ruleset::parser(b"$v !~ beta || $v ~ alpha").is_some());
    assert!(Ruleset::parser(b"$v ~ beta || $v !~ alpha").is_some());
    assert!(Ruleset::parser(b"$v !~ beta || $v !~ alpha || $v !~ dev").is_some());
    assert!(Ruleset::parser(b"$v !~ beta && $v !~ alpha").is_some());
    assert!(Ruleset::parser(b"$v !~ beta && $v !~ alpha && $v !~ dev").is_some());
    assert!(Ruleset::parser(b"$v !~ beta && $v !~ alpha || $v !~ dev").is_none());
    assert!(Ruleset::parser(b"$v !~ beta || $v !~ alpha && $v !~ dev").is_none());
    assert!(Ruleset::parser(b"($v ~ beta)").is_some());
    assert!(Ruleset::parser(b"($v ~ beta || $v ~ alpha)").is_some());
    assert!(Ruleset::parser(b"($v~beta||$v~alpha)").is_some());
    assert!(Ruleset::parser(b"($v ~ beta || $v ~ alpha) && $v !~ dev").is_some());
    assert!(Ruleset::parser(b"($v ~ beta && $v ~ alpha) || $v !~ dev").is_some());
    assert!(Ruleset::parser(b"$v = 1.0.0").is_some());
    assert!(Ruleset::parser(b"1.0.0 = 2.0.0").is_some());
    assert!(Ruleset::parser(b"$v !~ beta && $v !~ alpha && 1.0.0 = 2.0.0").is_some());
    assert!(Ruleset::parser(b"($v !~ beta && $v !~ alpha && 1.0.0 = 2.0.0)").is_some());
    assert!(Ruleset::parser(b"$v!~beta&&$v!~alpha&&1.0.0=2.0.0").is_some());
    assert!(Ruleset::parser(b"($v!~beta&&$v!~alpha&&1.0.0=2.0.0)").is_some());
}

#[test]
fn test_evaluate() {
    assert!(rs("$v ~ beta").evaluate(&v("1.0.0 Beta 1")));
    assert!(!rs("$v ~ beta").evaluate(&v("1.0.0")));
    assert!(rs("$v !~ beta").evaluate(&v("1.0.0 Alpha 1")));
    assert!(rs("$v !~ beta").evaluate(&v("1.0.0")));

    {
        let r = rs("($v !~ beta && $v !~ alpha && 1.0.0 != 2.0.0)");
        assert!(r.evaluate(&v("1.0.0")));
        assert!(r.evaluate(&v("1.0.0")));
    }

    {
        let r = rs("1.0.0 <= $v < 2.0.0 || 2.0.0 <= $v < 3.0.0");
        assert!(r.evaluate(&v("1.0.0")));
        assert!(r.evaluate(&v("1.5.1")));
        assert!(r.evaluate(&v("2.0.3 alpha 1")));
        assert!(!r.evaluate(&v("3.0.0")));
    }

    {
        let r = rs("1.0.0 <= $v < 2.0.0 && $v != 1.5.1");
        assert!(r.evaluate(&v("1.0.0")));
        assert!(r.evaluate(&v("1.5.0")));
        assert!(!r.evaluate(&v("1.5.1")));
        assert!(r.evaluate(&v("1.5.2")));
        assert!(!r.evaluate(&v("2.0.3 alpha 1")));
        assert!(!r.evaluate(&v("3.0.0")));
    }

    {
        let r = rs("$v = 1.0.0 || $v = 2.0.0 || $v = 3.0.0 || $v = 4.0.0");
        assert!(r.evaluate(&v("1.0.0")));
        assert!(r.evaluate(&v("2.0.0")));
        assert!(r.evaluate(&v("3.0.0")));
        assert!(r.evaluate(&v("4.0.0")));
        assert!(!r.evaluate(&v("5.0.0")));
    }
}

#[test]
fn test_round_trips() {
    let samples = [
        Version::new(1, 0, 0, None),
        Version::new(2021, 7, 21, None),
        Version::new(13, 3, 7, Some(Suffix::new(SuffixType::PatchLevel, 42))),
        Version::new(1, 0, 0, Some(Suffix::new(SuffixType::Alpha, 3))),
        Version::new(0, 9, 1, Some(Suffix::new(SuffixType::Beta, 1337))),
        Version::new(5, 4, 2, Some(Suffix::new(SuffixType::ReleaseCandidate, 2))),
        Version::new(5, 4, 2, Some(Suffix::new(SuffixType::Dev, 20210724))),
    ];
    for sample in samples {
        let display = sample.format_display();
        assert_eq!(
            Version::parser(&display),
            Some((sample, b"".as_slice())),
            "display form must parse back"
        );
        let url = sample.format_url();
        let spaced: Vec<u8> = url
            .iter()
            .map(|&b| if b == b'_' { b' ' } else { b })
            .collect();
        assert_eq!(
            Version::parser(&spaced),
            Some((sample, b"".as_slice())),
            "url form must parse back"
        );
    }
    assert_eq!(
        Version::new(1, 2, 3, Some(Suffix::new(SuffixType::Alpha, 4))).format_url(),
        b"1.2.3_alpha_4".to_vec()
    );
    assert_eq!(
        Version::new(1, 2, 3, Some(Suffix::new(SuffixType::ReleaseCandidate, 4)))
            .format_display(),
        b"1.2.3 RC 4".to_vec()
    );
}

#[test]
fn test_total_order_chain() {
    let base = v("1.0.0");
    let pl = v("1.0.0 pl 1");
    let dev = v("1.0.0 Dev 1");
    let alpha = v("1.0.0 Alpha 1");
    let beta = v("1.0.0 Beta 1");
    let rc = v("1.0.0 RC 1");
    assert!(base.lt(&pl));
    assert!(beta.lt(&base));
    assert!(dev.lt(&alpha));
    assert!(alpha.lt(&beta));
    assert!(beta.lt(&rc));
    assert!(rc.lt(&base));
    assert!(!base.lt(&base));
    assert!(!pl.lt(&base));
}

#[test]
fn test_star_accepts_everything() {
    let star = rs("*");
    assert!(star.evaluate(&v("0.0.0")));
    assert!(star.evaluate(&v("1.0.0 Dev 1")));
    assert!(star.evaluate(&v("4294967295.0.0")));
}

#[test]
fn test_like_beta_exactly() {
    let r = rs("$v ~ beta");
    assert!(r.evaluate(&v("1.0.0 Beta 1")));
    assert!(r.evaluate(&v("9.9.9 b 7")));
    assert!(!r.evaluate(&v("1.0.0")));
    assert!(!r.evaluate(&v("1.0.0 Alpha 1")));
    assert!(!r.evaluate(&v("1.0.0 pl 1")));
}

#[test]
fn test_range_rule() {
    let r = rs("1.0.0 <= $v < 2.0.0");
    assert!(r.evaluate(&v("1.0.0")));
    assert!(r.evaluate(&v("1.5.1")));
    assert!(!r.evaluate(&v("2.0.0")));
    assert!(!r.evaluate(&v("3.0.0")));
    // A pre-release of the upper bound carries a negative suffix weight
    // and sits below the bound.
    assert!(r.evaluate(&v("2.0.0 alpha 1")));
}

#[test]
fn test_two_version_equality_rule() {
    let r = rs("$v = 1.0.0 || $v = 2.0.0");
    assert!(r.evaluate(&v("1.0.0")));
    assert!(r.evaluate(&v("2.0.0")));
    assert!(!r.evaluate(&v("1.0.1")));
    assert!(!r.evaluate(&v("3.0.0")));
    assert!(!r.evaluate(&v("1.0.0 Beta 1")));
}

#[test]
fn test_version_try_from_exact() {
    assert_eq!(
        Version::try_from(b"1.2.3"),
        Some(Version::new(1, 2, 3, None))
    );
    assert!(Version::try_from(b"1.2.3 junk").is_none());
    assert!(Version::try_from(b"").is_none());
}

#[test]
fn test_parser_quirks() {
    // The whole input must be consumed: a wildcard with trailing text
    // is a parse error.
    assert!(Ruleset::parser(b"* ").is_none());
    assert!(Ruleset::parser(b"*foo").is_none());
    // Inside parentheses no whitespace is skipped before the first
    // token: the sub-expression grammar starts at `(` or `$v` directly.
    assert!(Ruleset::parser(b"( $v ~ beta)").is_none());
    assert!(Ruleset::parser(b"($v ~ beta )").is_none());
    // The degenerate comparison of two placeholders still parses; it is
    // rejected by the well-formedness check instead.
    let degenerate = Ruleset::parser(b"$v = $v").unwrap();
    assert!(!degenerate.check_wf());
    assert!(rs("$v ~ beta").check_wf());
}
