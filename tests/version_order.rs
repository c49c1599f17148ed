use cue::version::Version;
use std::cmp::Ordering;

fn v(s: &str) -> Version {
    Version::parse(s).expect("valid version")
}

#[test]
fn parses_plain_release() {
    let x = v("1.2.3");
    assert_eq!((x.major(), x.minor(), x.patch()), (1, 2, 3));
    assert_eq!(x.pre(), "");
    assert_eq!(x.build(), "");
}

#[test]
fn parses_prerelease_and_build() {
    let x = v("1.0.0-rc.1+build.5");
    assert_eq!(x.pre(), "rc.1");
    assert_eq!(x.build(), "build.5");
}

#[test]
fn rejects_malformed_versions() {
    for bad in ["1.2", "a.b.c", "1.2.3.4", "", "v1.2.3", "1.x.3"] {
        let e = Version::parse(bad).err().expect("must be refused");
        assert_eq!(e.text, bad);
    }
}

#[test]
fn release_chain_is_ordered() {
    let a = v("1.2.3");
    let b = v("1.3.0");
    let c = v("2.0.0");
    assert_eq!(a.compare(&b), Ordering::Less);
    assert_eq!(b.compare(&c), Ordering::Less);
    assert_eq!(a.compare(&c), Ordering::Less);
    assert_eq!(b.compare(&a), Ordering::Greater);
    assert_eq!(c.compare(&a), Ordering::Greater);
    assert_eq!(a.compare(&v("1.2.3")), Ordering::Equal);
}

#[test]
fn numeric_not_lexical_order() {
    assert_eq!(v("9.0.0").compare(&v("10.0.0")), Ordering::Less);
    assert!(v("1.10.0").is_newer_than(&v("1.9.0")));
}

#[test]
fn prerelease_ranks_below_release() {
    assert_eq!(v("1.0.0-alpha").compare(&v("1.0.0")), Ordering::Less);
    assert_eq!(v("1.0.0").compare(&v("1.0.0-alpha")), Ordering::Greater);
    assert_eq!(v("1.0.0-alpha").compare(&v("1.0.0-beta")), Ordering::Less);
    assert_eq!(v("1.0.0-beta.2").compare(&v("1.0.0-beta.11")), Ordering::Less);
}
