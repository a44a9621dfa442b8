use vstd::prelude::*;

verus! {

/// A candidate solution: it can be randomised, scored, and varied by greedy
/// operators that never lower its score.
///
/// Randomness comes from the generator handed in, which is the worker's
/// private one: the draws of these operators must not disturb the generator
/// that workers share.
pub trait Phenotype: Sized {
    /// The score of this value; higher is better.
    spec fn score(&self) -> nat;

    /// Randomises the value in place.
    fn init(&mut self, rng: &mut rand::XorShiftRng);

    /// Computes the score.
    fn utility(&self) -> (u: u32)
        ensures
            u as nat == self.score(),
    ;

    /// Exchanges material with `other`; each side keeps the exchange only
    /// where its own score did not fall.
    fn crossover(&mut self, other: &mut Self, rng: &mut rand::XorShiftRng)
        ensures
            final(self).score() >= old(self).score(),
            final(other).score() >= old(other).score(),
    ;

    /// Perturbs the value, keeping the change only where the score did not fall.
    fn mutate(&mut self, rng: &mut rand::XorShiftRng)
        ensures
            final(self).score() >= old(self).score(),
    ;
}

} // verus!
