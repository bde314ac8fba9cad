use vrc_get_vpm::version::{DependencyRange, UnityVersion, Version};

#[test]
fn version_order_is_lexicographic() {
    let a = Version::new(1, 0, 0);
    let b = Version::new(1, 0, 1);
    let c = Version::new(1, 1, 0);
    let d = Version::new(2, 0, 0);
    assert!(a.lt(&b));
    assert!(b.lt(&c));
    assert!(c.lt(&d));
    assert!(!d.lt(&a));
    assert!(a.le(&a));
    assert!(!b.le(&a));
}

#[test]
fn prerelease_orders_before_release() {
    let pre1 = Version::new_pre(1, 0, 0, 1);
    let pre2 = Version::new_pre(1, 0, 0, 2);
    let rel = Version::new(1, 0, 0);
    assert!(pre1.lt(&pre2));
    assert!(pre2.lt(&rel));
    assert!(!rel.lt(&pre1));
    assert!(pre1.is_prerelease());
    assert!(!rel.is_prerelease());
}

#[test]
fn exact_range_matches_only_its_version() {
    let r = DependencyRange::Exact(Version::new(1, 2, 3));
    assert!(r.matches(&Version::new(1, 2, 3)));
    assert!(!r.matches(&Version::new(1, 2, 4)));
    assert_eq!(r.as_single_version(), Some(Version::new(1, 2, 3)));
}

#[test]
fn at_least_range_matches_upward() {
    let r = DependencyRange::AtLeast(Version::new(1, 2, 0));
    assert!(r.matches(&Version::new(1, 2, 0)));
    assert!(r.matches(&Version::new(2, 0, 0)));
    assert!(!r.matches(&Version::new(1, 1, 9)));
    assert_eq!(r.as_single_version(), None);
}

#[test]
fn caret_range_keeps_major() {
    let r = DependencyRange::Caret(Version::new(1, 0, 0));
    assert!(r.matches(&Version::new(1, 2, 0)));
    assert!(!r.matches(&Version::new(2, 0, 0)));
    assert!(!r.matches(&Version::new(0, 9, 0)));
}

#[test]
fn wildcard_matches_everything() {
    let r = DependencyRange::Wildcard;
    assert!(r.matches(&Version::new(0, 0, 1)));
    assert!(r.matches(&Version::new(99, 0, 0)));
    assert_eq!(r.as_single_version(), None);
}

#[test]
fn version_range_constructor_is_exact() {
    let r = DependencyRange::version(Version::new(3, 1, 4));
    assert_eq!(r, DependencyRange::Exact(Version::new(3, 1, 4)));
}

#[test]
fn unity_version_parses_full_suffix() {
    let v = UnityVersion::parse("2019.4.31f1").unwrap();
    assert_eq!(v.major, 2019);
    assert_eq!(v.minor, 4);
    assert_eq!(v.revision, 31);
    assert_eq!(v.release_type, 'f' as u32);
    assert_eq!(v.increment, 1);
}

#[test]
fn unity_version_parses_without_suffix() {
    let v = UnityVersion::parse("2022.3.6").unwrap();
    assert_eq!(v, UnityVersion::new(2022, 3, 6));
    assert_eq!(v.release_type, 0);
    assert_eq!(v.increment, 0);
}

#[test]
fn unity_version_rejects_malformed_strings() {
    assert_eq!(UnityVersion::parse(""), None);
    assert_eq!(UnityVersion::parse("2019"), None);
    assert_eq!(UnityVersion::parse("2019.4"), None);
    assert_eq!(UnityVersion::parse("2019..4"), None);
    assert_eq!(UnityVersion::parse("a.b.c"), None);
    assert_eq!(UnityVersion::parse("2019.4.31f"), None);
    assert_eq!(UnityVersion::parse("1.2.3.4"), None);
    assert_eq!(UnityVersion::parse("99999999999999999999.1.1"), None);
}

#[test]
fn unity_version_order_ignores_suffix() {
    let a = UnityVersion::parse("2019.4.31f1").unwrap();
    let b = UnityVersion::parse("2022.1.0f1").unwrap();
    assert!(a.le(&b));
    assert!(!b.le(&a));
}
