//! Bounded scores.

use vstd::prelude::*;

verus! {

/// The largest value a [`Score`] can hold.
pub const SCORE_MAX: u8 = 100;

/// An integer score from 0 to 100.
///
/// Every numeric signal of an assessment is held on this scale: the components of
/// a risk score as they are, unit scores (0.0 to 1.0) in hundredths, and
/// severities (0.0 to 10.0) in tenths of a point.
#[derive(Clone, Copy, Debug, PartialEq, Eq, Structural, Hash)]
pub struct Score {
    points: u8,
}

impl View for Score {
    type V = nat;

    closed spec fn view(&self) -> nat {
        self.points as nat
    }
}

impl Score {
    /// A score never exceeds [`SCORE_MAX`].
    #[verifier::type_invariant]
    pub open spec fn in_range(self) -> bool {
        self@ <= 100
    }

    /// The score of `points`, or `None` when `points` is off the scale.
    pub fn new(points: u32) -> (r: Option<Score>)
        ensures
            r is Some <==> points <= 100,
            r matches Some(s) ==> s@ == points && s.in_range(),
    {
        if points <= 100 {
            Some(Score { points: points as u8 })
        } else {
            None
        }
    }

    /// The score of `points`, with everything above the scale counted as 100.
    pub fn capped(points: u64) -> (r: Score)
        ensures
            r@ == if points <= 100 { points as nat } else { 100 },
            r.in_range(),
    {
        if points <= 100 {
            Score { points: points as u8 }
        } else {
            Score { points: SCORE_MAX }
        }
    }

    /// The lowest score.
    pub fn zero() -> (r: Score)
        ensures
            r@ == 0,
            r.in_range(),
    {
        Score { points: 0 }
    }

    /// The score as a plain integer.
    pub fn value(&self) -> (r: u32)
        ensures
            r == self@,
            r <= 100,
    {
        proof {
            use_type_invariant(self);
        }
        self.points as u32
    }

    /// The larger of two scores.
    pub fn higher_of(self, other: Score) -> (r: Score)
        ensures
            r@ == if self@ >= other@ { self@ } else { other@ },
            r.in_range(),
    {
        proof {
            use_type_invariant(&self);
            use_type_invariant(&other);
        }
        if self.points >= other.points {
            self
        } else {
            other
        }
    }
}

} // verus!
