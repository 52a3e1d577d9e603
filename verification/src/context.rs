use vstd::prelude::*;
use crate::candidate::Candidate;

verus! {

/// Context for generating and evaluating solutions.
///
/// The ABC algorithm is abstract enough to work on a variety of problems;
/// the `Context` is responsible for the problem-specific operations. Nothing
/// is assumed of the solutions a context produces: the engine's contracts
/// hold for every context implementation.
///
/// Fitness is an ordered `u64`, higher is better. Callers minimizing, or
/// working with real-valued objectives, transform their measure into an
/// order-preserving integer encoding first.
pub trait Context: Sized {
    /// Type of solutions generated and evaluated by the engine.
    type Solution: Clone;

    /// Generates a fresh, random solution.
    fn make(&self) -> Self::Solution;

    /// Discovers the fitness of a solution (the engine maximizes this).
    fn evaluate_fitness(&self, solution: &Self::Solution) -> u64;

    /// Looks "near" the solution at `index` in a snapshot of the population,
    /// optionally referencing the other entries.
    fn explore(&self, field: &Vec<Candidate<Self::Solution>>, index: usize) -> Self::Solution
        requires
            index < field.len(),
    ;
}

} // verus!
