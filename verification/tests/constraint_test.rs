use package_security::constraint::{compatible_with, later_than, patches_of, range_of};
use package_security::{
    parse_constraint, parse_version, Comparator, UpperBound, Version, VersionRange,
};

fn v(major: u64, minor: u64, patch: u64) -> Version {
    Version::new(major, minor, patch)
}

#[test]
fn a_version_is_up_to_three_numbers() {
    assert_eq!(parse_version("4.17.21"), Some(v(4, 17, 21)));
    assert_eq!(parse_version("4.17"), Some(v(4, 17, 0)));
    assert_eq!(parse_version("4"), Some(v(4, 0, 0)));
    assert_eq!(parse_version("0.0.0"), Some(v(0, 0, 0)));
    assert_eq!(parse_version("1.11.0"), Some(v(1, 11, 0)));
    assert_eq!(parse_version("007.08.09"), Some(v(7, 8, 9)));
}

#[test]
fn what_is_not_a_version() {
    for text in [
        "", ".", "a", "1.", ".1", "1..2", "1.2.", "1.2.3.", "1.2.3.4", "1.2.3-beta", "v1.2.3",
        " 1.2.3", "1.2.3 ", "1,2,3", "-1", "+1", "1.x", "\u{661}.2.3",
    ] {
        assert_eq!(parse_version(text), None, "{:?} is no version", text);
    }
}

#[test]
fn a_number_must_fit() {
    assert_eq!(
        parse_version("18446744073709551615.0.18446744073709551615"),
        Some(v(u64::MAX, 0, u64::MAX))
    );
    assert_eq!(parse_version("18446744073709551616"), None);
    assert_eq!(parse_version("1.18446744073709551616.0"), None);
    assert_eq!(parse_version("99999999999999999999999999999999"), None);
    assert_eq!(parse_version("000000000000000000000000000000001"), Some(v(1, 0, 0)));
}

#[test]
fn a_bare_version_means_that_version() {
    assert_eq!(parse_constraint("4.0.0"), Some(VersionRange::exactly(v(4, 0, 0))));
    assert_eq!(parse_constraint("=4.0.0"), Some(VersionRange::exactly(v(4, 0, 0))));
    assert_eq!(parse_constraint("==1.11.0"), Some(VersionRange::exactly(v(1, 11, 0))));
}

#[test]
fn the_star_accepts_every_version() {
    assert_eq!(parse_constraint("*"), Some(VersionRange::any()));
}

#[test]
fn comparisons() {
    assert_eq!(parse_constraint(">=1.2.3"), Some(VersionRange::at_least(v(1, 2, 3))));
    assert_eq!(parse_constraint("<1.2.3"), Some(VersionRange::before(v(1, 2, 3))));
    let up_to = parse_constraint("<=1.2.3").unwrap();
    assert!(up_to.contains(&v(1, 2, 3)));
    assert!(up_to.contains(&v(0, 0, 0)));
    assert!(!up_to.contains(&v(1, 2, 4)));
    assert_eq!(up_to.upto, UpperBound::Through(v(1, 2, 3)));
    let after = parse_constraint(">1.2.3").unwrap();
    assert!(!after.contains(&v(1, 2, 3)));
    assert!(after.contains(&v(1, 2, 4)));
    assert_eq!(after, VersionRange::at_least(v(1, 2, 4)));
}

#[test]
fn compatible_versions_keep_the_first_number_that_is_not_zero() {
    assert_eq!(
        parse_constraint("^4.18.0"),
        Some(VersionRange::between(v(4, 18, 0), v(5, 0, 0)))
    );
    assert_eq!(parse_constraint("^0.2.3"), Some(VersionRange::between(v(0, 2, 3), v(0, 3, 0))));
    assert_eq!(parse_constraint("^0.0.3"), Some(VersionRange::exactly(v(0, 0, 3))));
    let range = parse_constraint("^4.17.21").unwrap();
    assert!(range.contains(&v(4, 17, 21)));
    assert!(range.contains(&v(4, 99, 0)));
    assert!(!range.contains(&v(4, 17, 20)));
    assert!(!range.contains(&v(5, 0, 0)));
}

#[test]
fn patches_keep_major_and_minor() {
    assert_eq!(parse_constraint("~1.2.3"), Some(VersionRange::between(v(1, 2, 3), v(1, 3, 0))));
    let range = parse_constraint("~1.2").unwrap();
    assert!(range.contains(&v(1, 2, 0)));
    assert!(range.contains(&v(1, 2, 99)));
    assert!(!range.contains(&v(1, 3, 0)));
}

#[test]
fn ranges_at_the_largest_numbers() {
    let top = v(u64::MAX, u64::MAX, u64::MAX);
    assert!(!later_than(top).contains(&top));
    assert!(!later_than(top).contains(&v(0, 0, 0)));
    assert!(later_than(v(1, u64::MAX, u64::MAX)).contains(&v(2, 0, 0)));
    assert!(!later_than(v(1, u64::MAX, u64::MAX)).contains(&v(1, u64::MAX, u64::MAX)));
    assert!(later_than(v(1, 2, u64::MAX)).contains(&v(1, 3, 0)));
    assert!(compatible_with(v(u64::MAX, 0, 0)).contains(&top));
    assert!(!compatible_with(v(u64::MAX, 1, 0)).contains(&v(u64::MAX, 0, 9)));
    assert!(compatible_with(v(0, u64::MAX, 0)).contains(&v(0, u64::MAX, 7)));
    assert!(!compatible_with(v(0, u64::MAX, 0)).contains(&v(1, 0, 0)));
    assert!(patches_of(v(3, u64::MAX, 1)).contains(&v(3, u64::MAX, 2)));
    assert!(!patches_of(v(3, u64::MAX, 1)).contains(&v(4, 0, 0)));
    assert!(patches_of(v(u64::MAX, u64::MAX, 1)).contains(&top));
}

#[test]
fn each_comparator_has_its_range() {
    let at = v(1, 2, 3);
    let cases = [
        (Comparator::Exact, [false, true, false, false, false]),
        (Comparator::Compatible, [false, true, true, true, false]),
        (Comparator::Patches, [false, true, true, false, false]),
        (Comparator::AtLeast, [false, true, true, true, true]),
        (Comparator::After, [false, false, true, true, true]),
        (Comparator::UpTo, [true, true, false, false, false]),
        (Comparator::Before, [true, false, false, false, false]),
    ];
    let probes = [v(1, 2, 2), v(1, 2, 3), v(1, 2, 4), v(1, 3, 0), v(2, 0, 0)];
    for (comparator, expected) in cases {
        let range = range_of(comparator, at);
        for (probe, wanted) in probes.iter().zip(expected) {
            assert_eq!(range.contains(probe), wanted, "{:?} {:?}", comparator, probe);
        }
    }
}

#[test]
fn what_is_not_a_constraint() {
    for text in [
        "", "^", "~", ">=", "=", "==", "latest", " 1.0.0", "**", "*1", "^^1.0.0", "=>1.0.0",
        ">= 1.0.0", "1.0.0 - 2.0.0", "^1.0.0 ", "===1.0.0",
    ] {
        assert_eq!(parse_constraint(text), None, "{:?} is no constraint", text);
    }
}
