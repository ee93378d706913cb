//! How an attested sentiment score moves a token's evolution points.

use vstd::prelude::*;

verus! {

/// The sum of two numbers, held at the largest value where it would pass it.
pub open spec fn saturating_sum(a: u64, b: u64) -> u64 {
    if a + b > u64::MAX {
        u64::MAX
    } else {
        (a + b) as u64
    }
}

/// The difference of two numbers, held at zero where it would fall below it.
pub open spec fn saturating_difference(a: u64, b: u64) -> u64 {
    if a < b {
        0
    } else {
        (a - b) as u64
    }
}

/// Three boundaries cut the scores into four tiers, and each tier moves the
/// points in its own way. The boundaries belong to the policy, so every place
/// that applies a policy draws the tiers alike.
#[derive(Debug, Clone, Copy, PartialEq, Eq)]
pub struct EvolutionPolicy {
    /// Scores strictly above this boundary are in the high tier.
    pub high_above: u64,
    /// Scores strictly above this boundary, up to the high one, are in the
    /// middle tier.
    pub mid_above: u64,
    /// Scores strictly below this boundary are in the low tier.
    pub low_below: u64,
    /// The points that a score in the high tier adds.
    pub high_reward: u64,
    /// The points that a score in the middle tier adds.
    pub mid_reward: u64,
    /// The points that a score in the low tier takes away.
    pub low_penalty: u64,
}

impl EvolutionPolicy {
    /// The boundaries are in order, so that no score lies in two tiers.
    pub open spec fn well_formed(self) -> bool {
        self.low_below <= self.mid_above <= self.high_above
    }

    /// The standard policy: above 75 add 10, above 50 add 5, below 25 take 2.
    pub open spec fn spec_standard() -> EvolutionPolicy {
        EvolutionPolicy {
            high_above: 75,
            mid_above: 50,
            low_below: 25,
            high_reward: 10,
            mid_reward: 5,
            low_penalty: 2,
        }
    }

    /// The points after a score has been applied to `points`. A score on a
    /// boundary belongs to the tier below the boundary, except that a score
    /// equal to the low boundary is not low: it leaves the points alone.
    pub open spec fn spec_apply(self, score: u64, points: u64) -> u64 {
        if score > self.high_above {
            saturating_sum(points, self.high_reward)
        } else if score > self.mid_above {
            saturating_sum(points, self.mid_reward)
        } else if score < self.low_below {
            saturating_difference(points, self.low_penalty)
        } else {
            points
        }
    }

    /// The standard policy.
    pub fn standard() -> (p: EvolutionPolicy)
        ensures
            p == Self::spec_standard(),
            p.well_formed(),
    {
        EvolutionPolicy {
            high_above: 75,
            mid_above: 50,
            low_below: 25,
            high_reward: 10,
            mid_reward: 5,
            low_penalty: 2,
        }
    }

    /// Applies a score to `points`. The result never wraps: it stops at the
    /// largest value on the way up and at zero on the way down.
    pub fn apply(&self, score: u64, points: u64) -> (next: u64)
        ensures
            next == self.spec_apply(score, points),
    {
        if score > self.high_above {
            points.saturating_add(self.high_reward)
        } else if score > self.mid_above {
            points.saturating_add(self.mid_reward)
        } else if score < self.low_below {
            points.saturating_sub(self.low_penalty)
        } else {
            points
        }
    }

    /// Under a policy whose boundaries are in order, each score lies in
    /// exactly one tier, and the tier alone decides how the points move.
    pub proof fn lemma_tiers(self, score: u64, points: u64)
        requires
            self.well_formed(),
        ensures
            score > self.high_above ==> self.spec_apply(score, points) == saturating_sum(
                points,
                self.high_reward,
            ),
            self.mid_above < score <= self.high_above ==> self.spec_apply(score, points)
                == saturating_sum(points, self.mid_reward),
            self.low_below <= score <= self.mid_above ==> self.spec_apply(score, points) == points,
            score < self.low_below ==> self.spec_apply(score, points) == saturating_difference(
                points,
                self.low_penalty,
            ),
    {
    }
}

} // verus!
