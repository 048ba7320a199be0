use package_security::{UpperBound, Version, VersionRange};

fn v(major: u64, minor: u64, patch: u64) -> Version {
    Version::new(major, minor, patch)
}

#[test]
fn versions_are_ordered_by_major_then_minor_then_patch() {
    assert!(v(1, 9, 9).is_before(&v(2, 0, 0)));
    assert!(v(1, 2, 9).is_before(&v(1, 3, 0)));
    assert!(v(1, 2, 3).is_before(&v(1, 2, 4)));
    assert!(!v(1, 2, 3).is_before(&v(1, 2, 3)));
    assert!(!v(2, 0, 0).is_before(&v(1, 9, 9)));
    assert!(v(1, 2, 3).is_up_to(&v(1, 2, 3)));
    assert!(v(0, 0, 0).is_up_to(&v(0, 0, 1)));
    assert!(!v(0, 1, 0).is_up_to(&v(0, 0, 9)));
    assert!(v(0, 0, u64::MAX).is_before(&v(0, 1, 0)));
}

#[test]
fn a_version_keeps_its_numbers() {
    let version = v(4, 17, 21);
    assert_eq!(version.major, 4);
    assert_eq!(version.minor, 17);
    assert_eq!(version.patch, 21);
    assert_eq!(version, Version { major: 4, minor: 17, patch: 21 });
}

#[test]
fn the_range_of_one_version() {
    let range = VersionRange::exactly(v(4, 0, 0));
    assert!(range.contains(&v(4, 0, 0)));
    assert!(!range.contains(&v(4, 0, 1)));
    assert!(!range.contains(&v(3, 9, 9)));
    assert_eq!(range.from, v(4, 0, 0));
    assert_eq!(range.upto, UpperBound::Through(v(4, 0, 0)));
}

#[test]
fn open_ranges() {
    assert!(VersionRange::any().contains(&v(0, 0, 0)));
    assert!(VersionRange::any().contains(&v(u64::MAX, u64::MAX, u64::MAX)));
    assert!(VersionRange::at_least(v(1, 0, 0)).contains(&v(1, 0, 0)));
    assert!(!VersionRange::at_least(v(1, 0, 0)).contains(&v(0, 9, 9)));
    assert!(VersionRange::before(v(4, 17, 21)).contains(&v(4, 17, 20)));
    assert!(!VersionRange::before(v(4, 17, 21)).contains(&v(4, 17, 21)));
    assert!(!VersionRange::before(v(0, 0, 0)).contains(&v(0, 0, 0)));
}

#[test]
fn a_range_between_two_versions_leaves_out_its_end() {
    let range = VersionRange::between(v(4, 18, 0), v(5, 0, 0));
    assert!(range.contains(&v(4, 18, 0)));
    assert!(range.contains(&v(4, 99, 99)));
    assert!(!range.contains(&v(5, 0, 0)));
    assert!(!range.contains(&v(4, 17, 9)));
    assert!(!VersionRange::between(v(2, 0, 0), v(1, 0, 0)).contains(&v(1, 5, 0)));
}

#[test]
fn ranges_that_share_a_version_intersect() {
    let affected = VersionRange::before(v(4, 17, 21));
    assert!(affected.intersects(&VersionRange::exactly(v(4, 0, 0))));
    assert!(!affected.intersects(&VersionRange::exactly(v(4, 17, 21))));
    assert!(affected.intersects(&VersionRange::between(v(4, 17, 20), v(5, 0, 0))));
    assert!(!affected.intersects(&VersionRange::between(v(4, 17, 21), v(5, 0, 0))));
    assert!(affected.intersects(&VersionRange::any()));
    assert!(VersionRange::any().intersects(&VersionRange::any()));
}

#[test]
fn touching_ranges_intersect_only_at_an_included_end() {
    let through = VersionRange { from: v(1, 0, 0), upto: UpperBound::Through(v(2, 0, 0)) };
    let before = VersionRange { from: v(1, 0, 0), upto: UpperBound::Before(v(2, 0, 0)) };
    let later = VersionRange::at_least(v(2, 0, 0));
    assert!(through.intersects(&later));
    assert!(later.intersects(&through));
    assert!(!before.intersects(&later));
    assert!(!later.intersects(&before));
}

#[test]
fn an_empty_range_intersects_nothing() {
    let empty = VersionRange::between(v(3, 0, 0), v(3, 0, 0));
    assert!(!empty.contains(&v(3, 0, 0)));
    assert!(!empty.intersects(&VersionRange::any()));
    assert!(!empty.intersects(&empty));
    assert!(!VersionRange::any().intersects(&empty));
}

#[test]
fn intersection_does_not_depend_on_the_order() {
    let ranges = [
        VersionRange::any(),
        VersionRange::exactly(v(1, 2, 3)),
        VersionRange::before(v(1, 2, 3)),
        VersionRange::at_least(v(1, 2, 4)),
        VersionRange::between(v(1, 0, 0), v(2, 0, 0)),
        VersionRange::between(v(1, 2, 3), v(1, 2, 4)),
    ];
    for a in &ranges {
        for b in &ranges {
            assert_eq!(a.intersects(b), b.intersects(a));
        }
    }
}
