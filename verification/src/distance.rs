//! Edit distance between names.
//!
//! The distance counts the fewest single-character insertions, deletions and
//! substitutions, and swaps of two neighbouring characters, that turn one name
//! into another, no stretch of the name being edited twice.

use vstd::prelude::*;

verus! {

/// The smaller of two numbers.
pub open spec fn least(x: nat, y: nat) -> nat {
    if x <= y {
        x
    } else {
        y
    }
}

/// The larger of two numbers.
pub open spec fn greater(x: nat, y: nat) -> nat {
    if x >= y {
        x
    } else {
        y
    }
}

/// Whether the last two characters of `a.take(i)` are the last two of `b.take(j)`, swapped.
pub open spec fn ends_swapped(a: Seq<char>, b: Seq<char>, i: nat, j: nat) -> bool {
    &&& 2 <= i <= a.len()
    &&& 2 <= j <= b.len()
    &&& a[i - 1] == b[j - 2]
    &&& a[i - 2] == b[j - 1]
}

/// Edit distance between the first `i` characters of `a` and the first `j` of `b`.
pub open spec fn prefix_distance(a: Seq<char>, b: Seq<char>, i: nat, j: nat) -> nat
    decreases i + j,
{
    if i == 0 {
        j
    } else if j == 0 {
        i
    } else {
        let keep_or_replace = prefix_distance(a, b, (i - 1) as nat, (j - 1) as nat) + (if a[i - 1]
            == b[j - 1] {
            0nat
        } else {
            1nat
        });
        let delete = prefix_distance(a, b, (i - 1) as nat, j) + 1;
        let insert = prefix_distance(a, b, i, (j - 1) as nat) + 1;
        let plain = least(keep_or_replace, least(delete, insert));
        if ends_swapped(a, b, i, j) {
            least(plain, prefix_distance(a, b, (i - 2) as nat, (j - 2) as nat) + 1)
        } else {
            plain
        }
    }
}

/// Edit distance between `a` and `b`.
pub open spec fn edit_distance(a: Seq<char>, b: Seq<char>) -> nat {
    prefix_distance(a, b, a.len(), b.len())
}

/// The distance never exceeds the longer of the two lengths.
pub proof fn lemma_distance_bounded(a: Seq<char>, b: Seq<char>, i: nat, j: nat)
    ensures
        prefix_distance(a, b, i, j) <= greater(i, j),
    decreases i + j,
{
    if i != 0 && j != 0 {
        lemma_distance_bounded(a, b, (i - 1) as nat, (j - 1) as nat);
    }
}

/// A name is at distance 0 from itself.
pub proof fn lemma_distance_to_self(a: Seq<char>, i: nat)
    requires
        i <= a.len(),
    ensures
        prefix_distance(a, a, i, i) == 0,
    decreases i,
{
    if i != 0 {
        lemma_distance_to_self(a, (i - 1) as nat);
    }
}

/// Only equal prefixes are at distance 0.
pub proof fn lemma_distance_zero_means_equal(a: Seq<char>, b: Seq<char>, i: nat, j: nat)
    requires
        i <= a.len(),
        j <= b.len(),
        prefix_distance(a, b, i, j) == 0,
    ensures
        i == j,
        a.take(i as int) == b.take(j as int),
    decreases i + j,
{
    if i == 0 || j == 0 {
        assert(a.take(0) =~= b.take(0));
    } else {
        lemma_distance_zero_means_equal(a, b, (i - 1) as nat, (j - 1) as nat);
        assert(a.take(i as int) =~= a.take(i - 1).push(a[i - 1]));
        assert(b.take(j as int) =~= b.take(j - 1).push(b[j - 1]));
    }
}

/// Two names are at distance 0 exactly when they are the same name.
pub proof fn lemma_distance_zero_iff_equal(a: Seq<char>, b: Seq<char>)
    ensures
        edit_distance(a, b) == 0 <==> a == b,
        edit_distance(a, b) <= greater(a.len(), b.len()),
{
    lemma_distance_bounded(a, b, a.len(), b.len());
    if edit_distance(a, b) == 0 {
        lemma_distance_zero_means_equal(a, b, a.len(), b.len());
        assert(a.take(a.len() as int) == a);
        assert(b.take(b.len() as int) == b);
    }
    if a == b {
        lemma_distance_to_self(a, a.len());
    }
}

/// The first row of the distance table: entry `j` holds the distance `j + 1`
/// between the empty prefix and the first `j + 1` characters.
fn first_row(width: usize) -> (row: Vec<usize>)
    ensures
        row.len() == width,
        forall|j: int| 0 <= j < width ==> row[j] == j + 1,
{
    let mut row: Vec<usize> = Vec::new();
    let mut j: usize = 0;
    while j < width
        invariant
            j <= width,
            row.len() == j,
            forall|k: int| 0 <= k < j ==> row[k] == k + 1,
        decreases width - j,
    {
        row.push(j + 1);
        j += 1;
    }
    row
}

/// The smaller of two numbers.
fn smaller(x: u128, y: u128) -> (r: u128)
    ensures
        r == least(x as nat, y as nat),
{
    if x <= y {
        x
    } else {
        y
    }
}

/// Computes the edit distance between `a` and `b`, one row of the table at a time.
pub fn distance_between(a: &Vec<char>, b: &Vec<char>) -> (d: usize)
    ensures
        d == edit_distance(a@, b@),
        d <= greater(a@.len(), b@.len()),
{
    let n = a.len();
    let m = b.len();
    proof {
        lemma_distance_bounded(a@, b@, n as nat, m as nat);
    }
    if m == 0 {
        return n;
    }
    let mut before: Vec<usize> = first_row(m);
    let mut above: Vec<usize> = first_row(m);
    let mut i: usize = 0;
    while i < n
        invariant
            i <= n,
            n == a.len(),
            m == b.len(),
            m > 0,
            above.len() == m,
            before.len() == m,
            forall|j: int| 0 <= j < m ==> above[j] == prefix_distance(a@, b@, i as nat, (j + 1) as nat),
            i >= 1 ==> forall|j: int|
                0 <= j < m ==> before[j] == prefix_distance(
                    a@,
                    b@,
                    (i - 1) as nat,
                    (j + 1) as nat,
                ),
        decreases n - i,
    {
        let mut row: Vec<usize> = Vec::new();
        let mut j: usize = 0;
        while j < m
            invariant
                j <= m,
                i < n,
                n == a.len(),
                m == b.len(),
                above.len() == m,
                before.len() == m,
                row.len() == j,
                forall|k: int|
                    0 <= k < m ==> above[k] == prefix_distance(a@, b@, i as nat, (k + 1) as nat),
                i >= 1 ==> forall|k: int|
                    0 <= k < m ==> before[k] == prefix_distance(
                        a@,
                        b@,
                        (i - 1) as nat,
                        (k + 1) as nat,
                    ),
                forall|k: int|
                    0 <= k < j ==> row[k] == prefix_distance(
                        a@,
                        b@,
                        (i + 1) as nat,
                        (k + 1) as nat,
                    ),
            decreases m - j,
        {
            let ghost gi = (i + 1) as nat;
            let ghost gj = (j + 1) as nat;
            proof {
                lemma_distance_bounded(a@, b@, gi, gj);
                lemma_distance_bounded(a@, b@, i as nat, j as nat);
                lemma_distance_bounded(a@, b@, i as nat, gj);
                lemma_distance_bounded(a@, b@, gi, j as nat);
            }
            let corner: u128 = if j == 0 {
                i as u128
            } else {
                above[j - 1] as u128
            };
            assert(corner == prefix_distance(a@, b@, i as nat, j as nat));
            let step: u128 = if a[i] == b[j] {
                0
            } else {
                1
            };
            let keep_or_replace: u128 = corner + step;
            let delete: u128 = above[j] as u128 + 1;
            assert(delete == prefix_distance(a@, b@, i as nat, gj) + 1);
            let insert: u128 = if j == 0 {
                i as u128 + 2
            } else {
                row[j - 1] as u128 + 1
            };
            assert(insert == prefix_distance(a@, b@, gi, j as nat) + 1);
            let plain: u128 = smaller(keep_or_replace, smaller(delete, insert));
            let swapped = i >= 1 && j >= 1 && a[i] == b[j - 1] && a[i - 1] == b[j];
            assert(swapped == ends_swapped(a@, b@, gi, gj));
            let best: u128 = if swapped {
                let far_corner: u128 = if j == 1 {
                    (i - 1) as u128
                } else {
                    before[j - 2] as u128
                };
                assert(far_corner == prefix_distance(a@, b@, (i - 1) as nat, (j - 1) as nat));
                smaller(plain, far_corner + 1)
            } else {
                plain
            };
            assert(best == prefix_distance(a@, b@, gi, gj));
            row.push(best as usize);
            j += 1;
        }
        before = above;
        above = row;
        i += 1;
    }
    above[m - 1]
}

} // verus!
