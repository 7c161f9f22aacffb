use cli_sync::errors::CliError;
use cli_sync::strutil::trim;
use cli_sync::version::{parse_version, Version};

fn v(s: &str) -> Version {
    parse_version(s).unwrap()
}

#[test]
fn parse_plain_version() {
    let p = v("2.1.0");
    assert_eq!(p.major, 2);
    assert_eq!(p.minor, 1);
    assert_eq!(p.patch, 0);
    assert!(p.pre.is_empty());
}

#[test]
fn parse_prerelease_identifiers() {
    let p = v("1.0.0-alpha.1");
    assert_eq!(p.major, 1);
    assert_eq!(p.minor, 0);
    assert_eq!(p.patch, 0);
    assert_eq!(p.pre, vec![String::from("alpha"), String::from("1")]);
}

#[test]
fn parse_ignores_build_metadata_for_precedence() {
    let a = v("1.2.3+build.7");
    assert_eq!(a.major, 1);
    assert_eq!(a.minor, 2);
    assert_eq!(a.patch, 3);
    assert!(a.pre.is_empty());
    let b = v("1.2.3");
    assert!(!a.precedes(&b));
    assert!(!b.precedes(&a));
}

#[test]
fn parse_malformed() {
    assert_eq!(parse_version("not-a-version").unwrap_err(), CliError::VersionParse);
    assert_eq!(parse_version("").unwrap_err(), CliError::VersionParse);
    assert_eq!(parse_version("1.0").unwrap_err(), CliError::VersionParse);
    assert_eq!(parse_version("1.0.0-").unwrap_err(), CliError::VersionParse);
}

#[test]
fn trim_whitespace_padding() {
    assert_eq!(trim("  2.1.0\n"), "2.1.0");
    assert_eq!(trim("2.1.0"), "2.1.0");
    assert_eq!(trim(" \t\r\n "), "");
}

#[test]
fn numeric_precedence() {
    assert!(v("1.9.0").precedes(&v("2.0.5")));
    assert!(!v("2.1.0").precedes(&v("2.0.5")));
    assert!(v("2.0.4").precedes(&v("2.0.5")));
    assert!(!v("2.0.5").precedes(&v("2.0.5")));
}

#[test]
fn prerelease_before_release() {
    assert!(v("1.0.0-alpha").precedes(&v("1.0.0")));
    assert!(!v("1.0.0").precedes(&v("1.0.0-alpha")));
}

#[test]
fn prerelease_identifier_ordering() {
    // The ordering examples of the semantic-versioning rules.
    let chain = [
        "1.0.0-alpha",
        "1.0.0-alpha.1",
        "1.0.0-alpha.beta",
        "1.0.0-beta",
        "1.0.0-beta.2",
        "1.0.0-beta.11",
        "1.0.0-rc.1",
        "1.0.0",
    ];
    for i in 0..chain.len() {
        for j in 0..chain.len() {
            assert_eq!(v(chain[i]).precedes(&v(chain[j])), i < j, "{} vs {}", chain[i], chain[j]);
        }
    }
}

#[test]
fn numeric_identifiers_compare_numerically() {
    assert!(v("1.0.0-2").precedes(&v("1.0.0-10")));
    assert!(!v("1.0.0-10").precedes(&v("1.0.0-2")));
    assert!(v("1.0.0-1").precedes(&v("1.0.0-alpha")));
}

#[test]
fn numeric_components_at_the_u64_limit() {
    let p = v("18446744073709551615.0.0");
    assert_eq!(p.major, u64::MAX);
    // One past the limit overflows and is rejected by the parser.
    assert_eq!(
        parse_version("18446744073709551616.0.0").unwrap_err(),
        CliError::VersionParse
    );
}

#[test]
fn numeric_identifiers_beyond_u64() {
    // Pre-release numeric identifiers are unbounded and still compare
    // numerically.
    let small = v("1.0.0-99999999999999999998");
    let large = v("1.0.0-99999999999999999999");
    let longer = v("1.0.0-100000000000000000000");
    assert!(small.precedes(&large));
    assert!(large.precedes(&longer));
    assert!(!longer.precedes(&small));
}

#[test]
fn precedence_agrees_with_semver_crate() {
    let samples = [
        "0.1.0",
        "1.0.0-alpha",
        "1.0.0-alpha.1",
        "1.0.0-alpha.beta",
        "1.0.0-beta.11",
        "1.0.0-rc.1",
        "1.0.0",
        "1.9.0",
        "2.0.5",
        "2.1.0",
        "10.0.0",
    ];
    for a in samples {
        for b in samples {
            let ours = v(a).precedes(&v(b));
            let theirs = semver::Version::parse(a).unwrap() < semver::Version::parse(b).unwrap();
            assert_eq!(ours, theirs, "{} vs {}", a, b);
        }
    }
}
