//! The discrete risk scale and its order.

use std::cmp::Ordering;
use vstd::prelude::*;
use vstd::std_specs::cmp::PartialOrdSpec;

verus! {

/// Overall severity of a package, from harmless to critical.
///
/// The levels are totally ordered, `Safe < Low < Medium < High < Critical`;
/// gating decisions such as "reject at `High` or above" rely on that order.
#[derive(Clone, Copy, Debug, PartialEq, Eq, Structural, Ord, Hash)]
pub enum RiskLevel {
    Safe,
    Low,
    Medium,
    High,
    Critical,
}

impl RiskLevel {
    /// Position of the level on the scale, `Safe` being 0 and `Critical` 4.
    pub open spec fn rank(self) -> nat {
        level_rank(self)
    }

    /// The level that sits at `rank` on the scale; ranks past the end give `Critical`.
    pub open spec fn of_rank(rank: nat) -> RiskLevel {
        if rank == 0 {
            RiskLevel::Safe
        } else if rank == 1 {
            RiskLevel::Low
        } else if rank == 2 {
            RiskLevel::Medium
        } else if rank == 3 {
            RiskLevel::High
        } else {
            RiskLevel::Critical
        }
    }

    /// `self` is strictly less severe than `other`.
    pub open spec fn below(self, other: RiskLevel) -> bool {
        self.partial_cmp_spec(&other) == Some(Ordering::Less)
    }

    /// `self` is at most as severe as `other`.
    pub open spec fn at_most(self, other: RiskLevel) -> bool {
        self.partial_cmp_spec(&other) matches Some(Ordering::Less | Ordering::Equal)
    }

    /// The more severe of two levels.
    pub open spec fn max_of(self, other: RiskLevel) -> RiskLevel {
        if self.rank() >= other.rank() {
            self
        } else {
            other
        }
    }

    /// Position of the level on the scale.
    pub fn ordinal(self) -> (r: u8)
        ensures
            r == self.rank(),
    {
        level_ordinal(self)
    }

    /// Whether `self` is at least as severe as `floor`.
    pub fn at_least(self, floor: RiskLevel) -> (r: bool)
        ensures
            r == (self.rank() >= floor.rank()),
            r == floor.at_most(self),
    {
        self.ordinal() >= floor.ordinal()
    }

    /// The more severe of `self` and `floor`.
    pub fn raised_to(self, floor: RiskLevel) -> (r: RiskLevel)
        ensures
            r == self.max_of(floor),
            floor.at_most(r),
            self.at_most(r),
            r == self || r == floor,
    {
        if self.ordinal() >= floor.ordinal() {
            self
        } else {
            floor
        }
    }
}

impl vstd::std_specs::cmp::PartialOrdSpecImpl for RiskLevel {
    open spec fn obeys_partial_cmp_spec() -> bool {
        true
    }

    open spec fn partial_cmp_spec(&self, other: &RiskLevel) -> Option<Ordering> {
        if level_rank(*self) < level_rank(*other) {
            Some(Ordering::Less)
        } else if level_rank(*self) > level_rank(*other) {
            Some(Ordering::Greater)
        } else {
            Some(Ordering::Equal)
        }
    }
}

impl PartialOrd for RiskLevel {
    fn partial_cmp(&self, other: &RiskLevel) -> (r: Option<Ordering>) {
        let a: u8 = level_ordinal(*self);
        let b: u8 = level_ordinal(*other);
        if a < b {
            Some(Ordering::Less)
        } else if a > b {
            Some(Ordering::Greater)
        } else {
            Some(Ordering::Equal)
        }
    }
}

/// Position of a level on the scale, `Safe` being 0 and `Critical` 4.
pub open spec fn level_rank(level: RiskLevel) -> nat {
    match level {
        RiskLevel::Safe => 0,
        RiskLevel::Low => 1,
        RiskLevel::Medium => 2,
        RiskLevel::High => 3,
        RiskLevel::Critical => 4,
    }
}

fn level_ordinal(level: RiskLevel) -> (r: u8)
    ensures
        r == level_rank(level),
{
    match level {
        RiskLevel::Safe => 0,
        RiskLevel::Low => 1,
        RiskLevel::Medium => 2,
        RiskLevel::High => 3,
        RiskLevel::Critical => 4,
    }
}

/// The scale runs `Safe < Low < Medium < High < Critical`.
pub proof fn lemma_scale_is_ascending()
    ensures
        RiskLevel::Safe.below(RiskLevel::Low),
        RiskLevel::Low.below(RiskLevel::Medium),
        RiskLevel::Medium.below(RiskLevel::High),
        RiskLevel::High.below(RiskLevel::Critical),
{
}

/// Every level equals itself, and is neither below nor above itself.
pub proof fn lemma_order_is_reflexive(a: RiskLevel)
    ensures
        a == a,
        a.partial_cmp_spec(&a) == Some(Ordering::Equal),
        a.at_most(a),
        !a.below(a),
{
}

/// Any two levels are comparable: exactly one of `a < b`, `a == b`, `b < a` holds,
/// and the comparison says `Equal` only for the same level.
pub proof fn lemma_order_is_total(a: RiskLevel, b: RiskLevel)
    ensures
        a.below(b) || a == b || b.below(a),
        !(a.below(b) && a == b),
        !(a.below(b) && b.below(a)),
        !(a == b && b.below(a)),
        a.partial_cmp_spec(&b) == Some(Ordering::Equal) <==> a == b,
        a.at_most(b) <==> !b.below(a),
        a.at_most(b) && b.at_most(a) ==> a == b,
{
}

/// Comparisons chain: from `a < b` and `b < c` follows `a < c`, and the same for `<=`.
pub proof fn lemma_order_is_transitive(a: RiskLevel, b: RiskLevel, c: RiskLevel)
    ensures
        a.below(b) && b.below(c) ==> a.below(c),
        a.at_most(b) && b.at_most(c) ==> a.at_most(c),
        a.below(b) && b.at_most(c) ==> a.below(c),
        a.at_most(b) && b.below(c) ==> a.below(c),
{
}

/// The order of the levels is the order of their ranks, and a rank names one level.
pub proof fn lemma_order_follows_rank(a: RiskLevel, b: RiskLevel)
    ensures
        a.below(b) <==> a.rank() < b.rank(),
        a.at_most(b) <==> a.rank() <= b.rank(),
        a.rank() == b.rank() <==> a == b,
        a.rank() <= 4,
        RiskLevel::of_rank(a.rank()) == a,
{
}

} // verus!
