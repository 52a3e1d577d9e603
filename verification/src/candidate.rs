use vstd::prelude::*;

verus! {

/// One solution being explored by the hive, together with its fitness.
///
/// Evaluating a solution is assumed to be expensive, so the fitness is
/// computed once, by the caller, and cached here. Fitness is an ordered
/// integer measure: higher is better.
#[derive(Clone, Debug)]
pub struct Candidate<S> {
    /// Actual candidate solution.
    pub solution: S,

    /// Cached fitness of the solution.
    pub fitness: u64,
}

impl<S> Candidate<S> {
    /// Wraps a solution with its cached fitness.
    pub fn new(solution: S, fitness: u64) -> (r: Candidate<S>)
        ensures
            r.solution == solution,
            r.fitness == fitness,
    {
        Candidate { solution, fitness }
    }
}

/// What one non-improving attempt does to a retry budget: it is spent down
/// to, and no further than, zero.
pub open spec fn spec_deplete(retries: usize) -> usize {
    if retries > 0 {
        (retries - 1) as usize
    } else {
        0
    }
}

/// The retry budget left after `k` non-improving attempts starting from
/// `retries`.
pub open spec fn spec_deplete_n(retries: usize, k: nat) -> usize
    decreases k,
{
    if k == 0 {
        retries
    } else {
        spec_deplete(spec_deplete_n(retries, (k - 1) as nat))
    }
}

/// A slot with retry budget `r` is not expired before `r` depleting calls,
/// and is expired from the `r`-th one on.
pub proof fn lemma_retry_countdown(retries: usize, k: nat)
    ensures
        spec_deplete_n(retries, k) == if k <= retries {
            (retries - k) as usize
        } else {
            0usize
        },
    decreases k,
{
    if k > 0 {
        lemma_retry_countdown(retries, (k - 1) as nat);
    }
}

/// A population slot: a candidate plus the number of times it may still fail
/// to improve before it is discarded and regenerated (scouted).
pub struct WorkingCandidate<S> {
    /// The candidate currently occupying this slot.
    pub candidate: Candidate<S>,
    /// The remaining retry budget. Read it freely; spend it through
    /// [`WorkingCandidate::deplete`] so that it never goes below zero.
    pub retries: usize,
}

impl<S> WorkingCandidate<S> {
    /// Wraps a candidate in a slot with a fresh retry budget.
    pub fn new(candidate: Candidate<S>, retries: usize) -> (r: WorkingCandidate<S>)
        ensures
            r.candidate == candidate,
            r.retries == retries,
    {
        WorkingCandidate { candidate, retries }
    }

    /// Whether the retry budget is exhausted.
    pub fn expired(&self) -> (r: bool)
        ensures
            r == (self.retries == 0),
    {
        self.retries == 0
    }

    /// Spends one retry; the budget never goes below zero.
    pub fn deplete(&mut self)
        ensures
            final(self).candidate == old(self).candidate,
            final(self).retries == spec_deplete(old(self).retries),
    {
        if self.retries > 0 {
            self.retries = self.retries - 1;
        }
    }

    /// Forces immediate expiry, regardless of the remaining budget.
    pub fn expire(&mut self)
        ensures
            final(self).candidate == old(self).candidate,
            final(self).retries == 0,
    {
        self.retries = 0;
    }
}

} // verus!
