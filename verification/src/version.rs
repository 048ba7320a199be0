//! Semantic versions and ranges of them.

use vstd::prelude::*;

verus! {

/// A semantic version: major, minor and patch number.
#[derive(Clone, Copy, Debug, PartialEq, Eq, Structural, Hash)]
pub struct Version {
    pub major: u64,
    pub minor: u64,
    pub patch: u64,
}

impl Version {
    /// `self` is an earlier version than `other`: the major numbers decide, then
    /// the minor numbers, then the patch numbers.
    pub open spec fn precedes(self, other: Version) -> bool {
        ||| self.major < other.major
        ||| self.major == other.major && self.minor < other.minor
        ||| self.major == other.major && self.minor == other.minor && self.patch < other.patch
    }

    /// `self` is `other` or an earlier version.
    pub open spec fn up_to(self, other: Version) -> bool {
        self == other || self.precedes(other)
    }

    /// The later of two versions.
    pub open spec fn later_of(self, other: Version) -> Version {
        if self.precedes(other) {
            other
        } else {
            self
        }
    }

    /// The earliest version there is.
    pub open spec fn lowest() -> Version {
        Version { major: 0, minor: 0, patch: 0 }
    }

    pub fn new(major: u64, minor: u64, patch: u64) -> (v: Version)
        ensures
            v == (Version { major, minor, patch }),
    {
        Version { major, minor, patch }
    }

    /// Whether `self` is an earlier version than `other`.
    pub fn is_before(&self, other: &Version) -> (r: bool)
        ensures
            r == self.precedes(*other),
    {
        if self.major != other.major {
            self.major < other.major
        } else if self.minor != other.minor {
            self.minor < other.minor
        } else {
            self.patch < other.patch
        }
    }

    /// Whether `self` is `other` or an earlier version.
    pub fn is_up_to(&self, other: &Version) -> (r: bool)
        ensures
            r == self.up_to(*other),
    {
        !other.is_before(self)
    }
}

/// Where a range of versions ends.
#[derive(Clone, Copy, Debug, PartialEq, Eq, Structural, Hash)]
pub enum UpperBound {
    /// The range has no end.
    Unbounded,
    /// The range ends with this version, which belongs to it.
    Through(Version),
    /// The range ends just before this version.
    Before(Version),
}

impl UpperBound {
    /// Whether `v` lies under the bound.
    pub open spec fn allows(self, v: Version) -> bool {
        match self {
            UpperBound::Unbounded => true,
            UpperBound::Through(last) => v.up_to(last),
            UpperBound::Before(end) => v.precedes(end),
        }
    }

    /// Whether `v` lies under the bound.
    pub fn permits(&self, v: &Version) -> (r: bool)
        ensures
            r == self.allows(*v),
    {
        match self {
            UpperBound::Unbounded => true,
            UpperBound::Through(last) => v.is_up_to(last),
            UpperBound::Before(end) => v.is_before(end),
        }
    }
}

/// A contiguous range of versions: everything from `from` on that `upto` allows.
///
/// Both the versions that a dependency constraint accepts and the versions that
/// an advisory affects are held as such a range.
#[derive(Clone, Copy, Debug, PartialEq, Eq, Structural, Hash)]
pub struct VersionRange {
    /// The earliest version of the range.
    pub from: Version,
    /// The end of the range.
    pub upto: UpperBound,
}

impl VersionRange {
    /// Whether `v` belongs to the range.
    pub open spec fn admits(self, v: Version) -> bool {
        self.from.up_to(v) && self.upto.allows(v)
    }

    /// Whether the two ranges have a version in common.
    pub open spec fn overlaps(self, other: VersionRange) -> bool {
        exists|v: Version| self.admits(v) && other.admits(v)
    }

    /// Whether no version belongs to the range.
    pub open spec fn is_empty(self) -> bool {
        forall|v: Version| !self.admits(v)
    }

    /// The range of all versions.
    pub fn any() -> (r: VersionRange)
        ensures
            forall|v: Version| r.admits(v),
            r == (VersionRange { from: Version::lowest(), upto: UpperBound::Unbounded }),
    {
        VersionRange { from: Version::new(0, 0, 0), upto: UpperBound::Unbounded }
    }

    /// The range that holds `version` alone.
    pub fn exactly(version: Version) -> (r: VersionRange)
        ensures
            forall|v: Version| r.admits(v) <==> v == version,
            r == (VersionRange { from: version, upto: UpperBound::Through(version) }),
    {
        VersionRange { from: version, upto: UpperBound::Through(version) }
    }

    /// The range of `version` and everything later.
    pub fn at_least(version: Version) -> (r: VersionRange)
        ensures
            forall|v: Version| r.admits(v) <==> version.up_to(v),
            r == (VersionRange { from: version, upto: UpperBound::Unbounded }),
    {
        VersionRange { from: version, upto: UpperBound::Unbounded }
    }

    /// The range of everything earlier than `version`.
    pub fn before(version: Version) -> (r: VersionRange)
        ensures
            forall|v: Version| r.admits(v) <==> v.precedes(version),
            r == (VersionRange { from: Version::lowest(), upto: UpperBound::Before(version) }),
    {
        VersionRange { from: Version::new(0, 0, 0), upto: UpperBound::Before(version) }
    }

    /// The range from `first` up to, but without, `end`.
    pub fn between(first: Version, end: Version) -> (r: VersionRange)
        ensures
            forall|v: Version| r.admits(v) <==> first.up_to(v) && v.precedes(end),
            r == (VersionRange { from: first, upto: UpperBound::Before(end) }),
    {
        VersionRange { from: first, upto: UpperBound::Before(end) }
    }

    /// Whether `v` belongs to the range.
    pub fn contains(&self, v: &Version) -> (r: bool)
        ensures
            r == self.admits(*v),
    {
        self.from.is_up_to(v) && self.upto.permits(v)
    }

    /// Whether the two ranges have a version in common.
    ///
    /// Two ranges meet exactly when the later of their starts lies in both.
    pub fn intersects(&self, other: &VersionRange) -> (r: bool)
        ensures
            r == self.overlaps(*other),
    {
        let start = if self.from.is_before(&other.from) {
            other.from
        } else {
            self.from
        };
        let r = self.upto.permits(&start) && other.upto.permits(&start);
        proof {
            if r {
                assert(self.admits(start) && other.admits(start));
            } else {
                assert forall|v: Version| !(self.admits(v) && other.admits(v)) by {
                    if self.admits(v) && other.admits(v) {
                        assert(start.up_to(v));
                    }
                }
            }
        }
        r
    }
}

} // verus!
