//! Versions and version constraints written as text.
//!
//! A version is written as one to three decimal numbers with dots between
//! them; numbers that are left out count as 0. A constraint is `*`, or a
//! version behind one of the comparators `=`, `==`, `^`, `~`, `>=`, `>`, `<=`
//! and `<`; a version alone means that version exactly.

use crate::text::chars_of;
use crate::version::{UpperBound, Version, VersionRange};
use vstd::prelude::*;

verus! {

/// Whether `c` is a decimal digit.
pub open spec fn is_digit(c: char) -> bool {
    48 <= c as u32 <= 57
}

/// The value of the decimal digit `c`.
pub open spec fn digit_value(c: char) -> nat {
    (c as u32 - 48) as nat
}

/// The end of the run of digits that starts in `text` at `from`.
pub open spec fn digits_end(text: Seq<char>, from: int) -> int
    decreases text.len() - from,
{
    if 0 <= from < text.len() && is_digit(text[from]) {
        digits_end(text, from + 1)
    } else {
        from
    }
}

/// The number that the digits of `text` from `from` up to `end` write.
pub open spec fn number_value(text: Seq<char>, from: int, end: int) -> nat
    decreases end - from,
{
    if end <= from {
        0
    } else {
        10 * number_value(text, from, end - 1) + digit_value(text[end - 1])
    }
}

/// The number written in `text` at `from`, and where it ends: the longest run
/// of digits there. `None` where no digit stands or the number is too large.
pub open spec fn number_at(text: Seq<char>, from: int) -> Option<(u64, int)> {
    let end = digits_end(text, from);
    let value = number_value(text, from, end);
    if end > from && value <= u64::MAX {
        Some((value as u64, end))
    } else {
        None
    }
}

/// The version written by the whole of `text` behind `from`.
pub open spec fn version_at(text: Seq<char>, from: int) -> Option<Version> {
    match number_at(text, from) {
        None => None,
        Some((major, after_major)) => if after_major == text.len() {
            Some(Version { major, minor: 0, patch: 0 })
        } else if text[after_major] != '.' {
            None
        } else {
            match number_at(text, after_major + 1) {
                None => None,
                Some((minor, after_minor)) => if after_minor == text.len() {
                    Some(Version { major, minor, patch: 0 })
                } else if text[after_minor] != '.' {
                    None
                } else {
                    match number_at(text, after_minor + 1) {
                        None => None,
                        Some((patch, after_patch)) => if after_patch == text.len() {
                            Some(Version { major, minor, patch })
                        } else {
                            None
                        },
                    }
                },
            }
        },
    }
}

/// The version that `text` writes.
pub open spec fn parsed_version(text: Seq<char>) -> Option<Version> {
    version_at(text, 0)
}

/// How a constraint relates the versions it accepts to the version it names.
#[derive(Clone, Copy, Debug, PartialEq, Eq, Structural, Hash)]
pub enum Comparator {
    /// That version alone.
    Exact,
    /// That version and later ones that keep its first number that is not 0.
    Compatible,
    /// That version and later ones that keep its major and minor number.
    Patches,
    AtLeast,
    After,
    UpTo,
    Before,
}

/// The comparator that `text` starts with, and the length of its sign.
pub open spec fn leading_comparator(text: Seq<char>) -> (Comparator, int) {
    if text.len() >= 2 && text[0] == '=' && text[1] == '=' {
        (Comparator::Exact, 2)
    } else if text.len() >= 2 && text[0] == '>' && text[1] == '=' {
        (Comparator::AtLeast, 2)
    } else if text.len() >= 2 && text[0] == '<' && text[1] == '=' {
        (Comparator::UpTo, 2)
    } else if text.len() >= 1 && text[0] == '=' {
        (Comparator::Exact, 1)
    } else if text.len() >= 1 && text[0] == '^' {
        (Comparator::Compatible, 1)
    } else if text.len() >= 1 && text[0] == '~' {
        (Comparator::Patches, 1)
    } else if text.len() >= 1 && text[0] == '>' {
        (Comparator::After, 1)
    } else if text.len() >= 1 && text[0] == '<' {
        (Comparator::Before, 1)
    } else {
        (Comparator::Exact, 0)
    }
}

/// Whether `w` keeps the first number of `v` that is not 0, and the zeros before it.
pub open spec fn keeps_leading_number(v: Version, w: Version) -> bool {
    if v.major > 0 {
        w.major == v.major
    } else if v.minor > 0 {
        w.major == 0 && w.minor == v.minor
    } else {
        w.major == 0 && w.minor == 0 && w.patch == v.patch
    }
}

/// Whether the constraint made of `comparator` and `v` accepts `w`.
pub open spec fn accepts(comparator: Comparator, v: Version, w: Version) -> bool {
    match comparator {
        Comparator::Exact => w == v,
        Comparator::Compatible => v.up_to(w) && keeps_leading_number(v, w),
        Comparator::Patches => v.up_to(w) && w.major == v.major && w.minor == v.minor,
        Comparator::AtLeast => v.up_to(w),
        Comparator::After => v.precedes(w),
        Comparator::UpTo => w.up_to(v),
        Comparator::Before => w.precedes(v),
    }
}

/// Whether `range` holds exactly the versions that `text` accepts as a constraint.
pub open spec fn is_range_of(range: VersionRange, text: Seq<char>) -> bool {
    if text.len() == 1 && text[0] == '*' {
        forall|w: Version| range.admits(w)
    } else {
        let (comparator, skip) = leading_comparator(text);
        match version_at(text, skip) {
            Some(v) => forall|w: Version| range.admits(w) <==> accepts(comparator, v, w),
            None => false,
        }
    }
}

/// Whether `text` is a constraint.
pub open spec fn is_constraint(text: Seq<char>) -> bool {
    (text.len() == 1 && text[0] == '*') || version_at(text, leading_comparator(text).1) is Some
}

/// A longer run of digits writes a number that is at least as large.
proof fn lemma_number_grows(text: Seq<char>, from: int, shorter: int, longer: int)
    requires
        from <= shorter <= longer,
    ensures
        number_value(text, from, shorter) <= number_value(text, from, longer),
    decreases longer - shorter,
{
    if shorter < longer {
        lemma_number_grows(text, from, shorter, longer - 1);
    }
}

/// A run of digits ends where the run from any of its digits ends.
proof fn lemma_digits_end_from_inside(text: Seq<char>, from: int, inside: int)
    requires
        0 <= from <= inside <= text.len(),
        forall|k: int| from <= k < inside ==> is_digit(#[trigger] text[k]),
    ensures
        digits_end(text, from) == digits_end(text, inside),
        inside <= digits_end(text, inside) <= text.len(),
    decreases inside - from,
{
    if from < inside {
        lemma_digits_end_from_inside(text, from + 1, inside);
    } else {
        lemma_digits_end_in_range(text, inside);
    }
}

proof fn lemma_digits_end_in_range(text: Seq<char>, from: int)
    requires
        0 <= from <= text.len(),
    ensures
        from <= digits_end(text, from) <= text.len(),
    decreases text.len() - from,
{
    if from < text.len() && is_digit(text[from]) {
        lemma_digits_end_in_range(text, from + 1);
    }
}

/// Reads the number written in `text` at `from`.
fn read_number(text: &Vec<char>, from: usize) -> (r: Option<(u64, usize)>)
    requires
        from <= text.len(),
    ensures
        match r {
            Some((value, end)) => number_at(text@, from as int) == Some((value, end as int))
                && from < end <= text.len(),
            None => number_at(text@, from as int) is None,
        },
{
    let mut value: u64 = 0;
    let mut i: usize = from;
    while i < text.len() && text[i] as u32 >= 48 && text[i] as u32 <= 57
        invariant
            from <= i <= text.len(),
            forall|k: int| from <= k < i ==> is_digit(#[trigger] text[k]),
            value == number_value(text@, from as int, i as int),
        decreases text.len() - i,
    {
        let digit: u64 = (text[i] as u32 - 48) as u64;
        proof {
            lemma_digits_end_from_inside(text@, from as int, i + 1);
            lemma_number_grows(text@, from as int, i + 1, digits_end(text@, from as int));
        }
        if value > (u64::MAX - digit) / 10 {
            assert(number_value(text@, from as int, i + 1) > u64::MAX);
            return None;
        }
        value = value * 10 + digit;
        i += 1;
    }
    proof {
        lemma_digits_end_from_inside(text@, from as int, i as int);
        assert(digits_end(text@, i as int) == i);
    }
    if i == from {
        None
    } else {
        Some((value, i))
    }
}

/// Reads the version written by the whole of `text` behind `from`.
fn read_version(text: &Vec<char>, from: usize) -> (r: Option<Version>)
    requires
        from <= text.len(),
    ensures
        r == version_at(text@, from as int),
{
    let (major, after_major) = match read_number(text, from) {
        Some(found) => found,
        None => {
            return None;
        },
    };
    if after_major == text.len() {
        return Some(Version::new(major, 0, 0));
    }
    if text[after_major] != '.' {
        return None;
    }
    let (minor, after_minor) = match read_number(text, after_major + 1) {
        Some(found) => found,
        None => {
            return None;
        },
    };
    if after_minor == text.len() {
        return Some(Version::new(major, minor, 0));
    }
    if text[after_minor] != '.' {
        return None;
    }
    let (patch, after_patch) = match read_number(text, after_minor + 1) {
        Some(found) => found,
        None => {
            return None;
        },
    };
    if after_patch == text.len() {
        Some(Version::new(major, minor, patch))
    } else {
        None
    }
}

/// The version that `text` writes: `4`, `4.17` or `4.17.21`.
pub fn parse_version(text: &str) -> (r: Option<Version>)
    ensures
        r == parsed_version(text@),
{
    let letters = chars_of(text);
    read_version(&letters, 0)
}

/// Reads the comparator that `text` starts with.
fn read_comparator(text: &Vec<char>) -> (r: (Comparator, usize))
    ensures
        (r.0, r.1 as int) == leading_comparator(text@),
        r.1 <= text.len(),
{
    let n = text.len();
    if n >= 2 && text[0] == '=' && text[1] == '=' {
        (Comparator::Exact, 2)
    } else if n >= 2 && text[0] == '>' && text[1] == '=' {
        (Comparator::AtLeast, 2)
    } else if n >= 2 && text[0] == '<' && text[1] == '=' {
        (Comparator::UpTo, 2)
    } else if n >= 1 && text[0] == '=' {
        (Comparator::Exact, 1)
    } else if n >= 1 && text[0] == '^' {
        (Comparator::Compatible, 1)
    } else if n >= 1 && text[0] == '~' {
        (Comparator::Patches, 1)
    } else if n >= 1 && text[0] == '>' {
        (Comparator::After, 1)
    } else if n >= 1 && text[0] == '<' {
        (Comparator::Before, 1)
    } else {
        (Comparator::Exact, 0)
    }
}

/// The range of `v` and the later versions that keep its first number that is not 0.
pub fn compatible_with(v: Version) -> (r: VersionRange)
    ensures
        forall|w: Version| r.admits(w) <==> accepts(Comparator::Compatible, v, w),
{
    if v.major > 0 {
        if v.major < u64::MAX {
            VersionRange::between(v, Version::new(v.major + 1, 0, 0))
        } else {
            VersionRange::at_least(v)
        }
    } else if v.minor > 0 {
        if v.minor < u64::MAX {
            VersionRange::between(v, Version::new(0, v.minor + 1, 0))
        } else {
            VersionRange::between(v, Version::new(1, 0, 0))
        }
    } else {
        VersionRange::exactly(v)
    }
}

/// The range of `v` and the later versions that keep its major and minor number.
pub fn patches_of(v: Version) -> (r: VersionRange)
    ensures
        forall|w: Version| r.admits(w) <==> accepts(Comparator::Patches, v, w),
{
    if v.minor < u64::MAX {
        VersionRange::between(v, Version::new(v.major, v.minor + 1, 0))
    } else if v.major < u64::MAX {
        VersionRange::between(v, Version::new(v.major + 1, 0, 0))
    } else {
        VersionRange::at_least(v)
    }
}

/// The range of the versions later than `v`.
pub fn later_than(v: Version) -> (r: VersionRange)
    ensures
        forall|w: Version| r.admits(w) <==> accepts(Comparator::After, v, w),
{
    if v.patch < u64::MAX {
        VersionRange::at_least(Version::new(v.major, v.minor, v.patch + 1))
    } else if v.minor < u64::MAX {
        VersionRange::at_least(Version::new(v.major, v.minor + 1, 0))
    } else if v.major < u64::MAX {
        VersionRange::at_least(Version::new(v.major + 1, 0, 0))
    } else {
        VersionRange::before(Version::new(0, 0, 0))
    }
}

/// The range of the versions that `comparator` accepts next to `v`.
pub fn range_of(comparator: Comparator, v: Version) -> (r: VersionRange)
    ensures
        forall|w: Version| r.admits(w) <==> accepts(comparator, v, w),
{
    match comparator {
        Comparator::Exact => VersionRange::exactly(v),
        Comparator::Compatible => compatible_with(v),
        Comparator::Patches => patches_of(v),
        Comparator::AtLeast => VersionRange::at_least(v),
        Comparator::After => later_than(v),
        Comparator::UpTo => VersionRange { from: Version::new(0, 0, 0), upto: UpperBound::Through(v) },
        Comparator::Before => VersionRange::before(v),
    }
}

/// The range of the versions that the constraint `text` accepts; `None` where
/// `text` is no constraint.
pub fn parse_constraint(text: &str) -> (r: Option<VersionRange>)
    ensures
        r is Some <==> is_constraint(text@),
        r matches Some(range) ==> is_range_of(range, text@),
{
    let letters = chars_of(text);
    if letters.len() == 1 && letters[0] == '*' {
        return Some(VersionRange::any());
    }
    let (comparator, skip) = read_comparator(&letters);
    match read_version(&letters, skip) {
        Some(v) => Some(range_of(comparator, v)),
        None => None,
    }
}

} // verus!
