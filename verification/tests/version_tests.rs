use pgtools::Version;

fn v(s: &str) -> Version {
    Version::parse(s).expect("version should parse")
}

#[test]
fn parses_plain_triple() {
    let p = v("1.2.3");
    assert_eq!(p.major, 1);
    assert_eq!(p.minor, 2);
    assert_eq!(p.patch, 3);
    assert_eq!(p.pre, "");
    assert_eq!(p.build, "");
}

#[test]
fn parses_pre_release_and_build() {
    let p = v("10.20.30-alpha.1+build.5");
    assert_eq!(p.major, 10);
    assert_eq!(p.minor, 20);
    assert_eq!(p.patch, 30);
    assert_eq!(p.pre, "alpha.1");
    assert_eq!(p.build, "build.5");
}

#[test]
fn rejects_non_versions() {
    assert!(Version::parse("notaversion").is_none());
    assert!(Version::parse("1.0").is_none());
    assert!(Version::parse("1.0.01").is_none());
    assert!(Version::parse("1.0.0-").is_none());
    assert!(Version::parse("").is_none());
}

#[test]
fn zero_is_the_null_version() {
    let z = Version::zero();
    assert_eq!(z.major, 0);
    assert_eq!(z.minor, 0);
    assert_eq!(z.patch, 0);
    assert_eq!(z.pre, "");
    assert_eq!(z.build, "");
}

#[test]
fn orders_triples_numerically() {
    assert!(v("1.0.0").lt(&v("2.0.0")));
    assert!(v("1.1.0").lt(&v("1.2.0")));
    assert!(v("1.1.9").lt(&v("1.1.10")));
    assert!(!v("2.0.0").lt(&v("1.9.9")));
    assert!(!v("1.0.0").lt(&v("1.0.0")));
}

#[test]
fn pre_release_sorts_below_release() {
    assert!(v("1.0.0-alpha").lt(&v("1.0.0")));
    assert!(!v("1.0.0").lt(&v("1.0.0-alpha")));
}

#[test]
fn pre_release_identifiers_order() {
    // shorter identifier list sorts below its extension
    assert!(v("1.0.0-alpha").lt(&v("1.0.0-alpha.1")));
    // numeric identifiers compare as numbers
    assert!(v("1.0.0-alpha.2").lt(&v("1.0.0-alpha.10")));
    // numeric identifiers sort below alphanumeric ones
    assert!(v("1.0.0-1").lt(&v("1.0.0-alpha")));
    // alphanumeric identifiers compare lexically
    assert!(v("1.0.0-alpha").lt(&v("1.0.0-beta")));
}

#[test]
fn build_metadata_is_ignored_for_precedence() {
    assert!(v("1.0.0+a").eq_prec(&v("1.0.0+b")));
    assert!(!v("1.0.0+a").lt(&v("1.0.0+b")));
    assert!(!v("1.0.0+b").lt(&v("1.0.0+a")));
}

#[test]
fn renders_back_to_text() {
    assert_eq!(v("1.2.3").to_text(), "1.2.3");
    assert_eq!(v("0.0.0").to_text(), "0.0.0");
    assert_eq!(v("10.20.30-alpha.1+build.5").to_text(), "10.20.30-alpha.1+build.5");
    assert_eq!(v("987654321.0.1").to_text(), "987654321.0.1");
}

#[test]
fn text_round_trips_through_parse() {
    let p = v("4.5.6-rc.2+linux");
    let q = Version::parse(&p.to_text()).unwrap();
    assert!(p.eq_prec(&q));
    assert_eq!(q.build, "linux");
}
