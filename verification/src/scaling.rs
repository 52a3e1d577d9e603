//! Scaling policies that turn a fitness vector into selection weights.
//!
//! A portion of the bees in an artificial bee colony observe the dedicated
//! workers and do extra work on promising solutions. To enable this, the
//! population's fitnesses are gathered into a vector, a scaling policy maps
//! it to a weight vector of the same length, and a slot is then chosen with
//! probability proportional to its weight.
//!
//! By default, [`proportionate`] scaling is used.

use vstd::prelude::*;
use vstd::arithmetic::power::pow;

verus! {

/// `base` raised to the `k`-th power, capped at `u64::MAX`.
pub open spec fn pow_capped(base: u64, k: u32) -> u64 {
    if pow(base as int, k as nat) > u64::MAX as int {
        u64::MAX
    } else {
        pow(base as int, k as nat) as u64
    }
}

/// Whether the entry at `j` is ranked strictly below the entry at `i`:
/// it has lower fitness, or equal fitness and an earlier position (so that
/// ties are resolved stably, by position).
pub open spec fn rank_precedes(f: Seq<u64>, j: int, i: int) -> bool {
    f[j] < f[i] || (f[j] == f[i] && j < i)
}

/// Number of positions in the prefix of length `k` ranked below position `i`.
pub open spec fn rank_count(f: Seq<u64>, i: int, k: int) -> int
    decreases k,
{
    if k <= 0 {
        0
    } else {
        rank_count(f, i, k - 1) + if rank_precedes(f, k - 1, i) {
            1int
        } else {
            0int
        }
    }
}

/// The ascending rank of position `i`: 1 for the least fit entry, up to
/// `f.len()` for the fittest, ties resolved by position.
pub open spec fn rank_of(f: Seq<u64>, i: int) -> int {
    rank_count(f, i, f.len() as int) + 1
}

proof fn lemma_rank_count_bound(f: Seq<u64>, i: int, k: int)
    requires
        0 <= i < f.len(),
        0 <= k,
    ensures
        0 <= rank_count(f, i, k),
        rank_count(f, i, k) <= k,
        i < k ==> rank_count(f, i, k) <= k - 1,
    decreases k,
{
    if k > 0 {
        lemma_rank_count_bound(f, i, k - 1);
    }
}

/// Every rank lies in 1..=N.
pub proof fn lemma_rank_in_range(f: Seq<u64>, i: int)
    requires
        0 <= i < f.len(),
    ensures
        1 <= rank_of(f, i) <= f.len(),
{
    lemma_rank_count_bound(f, i, f.len() as int);
}

proof fn lemma_rank_count_dominates(f: Seq<u64>, i: int, j: int, k: int)
    requires
        0 <= i < f.len(),
        0 <= j < f.len(),
        rank_precedes(f, i, j),
        0 <= k <= f.len(),
    ensures
        rank_count(f, i, k) + (if i < k { 1int } else { 0int }) <= rank_count(f, j, k),
    decreases k,
{
    if k > 0 {
        lemma_rank_count_dominates(f, i, j, k - 1);
        // Every position ranked below `i` is also ranked below `j`, and at
        // position `i` itself only `j`'s count grows.
    }
}

/// Ranks respect the stable order exactly: a position ranked below another
/// receives the strictly smaller rank.
pub proof fn lemma_rank_respects_order(f: Seq<u64>, i: int, j: int)
    requires
        0 <= i < f.len(),
        0 <= j < f.len(),
        rank_precedes(f, i, j),
    ensures
        rank_of(f, i) < rank_of(f, j),
{
    lemma_rank_count_dominates(f, i, j, f.len() as int);
}

/// Distinct positions receive distinct ranks.
pub proof fn lemma_rank_injective(f: Seq<u64>, i: int, j: int)
    requires
        0 <= i < f.len(),
        0 <= j < f.len(),
        i != j,
    ensures
        rank_of(f, i) != rank_of(f, j),
{
    if rank_precedes(f, i, j) {
        lemma_rank_respects_order(f, i, j);
    } else {
        assert(rank_precedes(f, j, i));
        lemma_rank_respects_order(f, j, i);
    }
}

/// The ranks of a fitness vector are a permutation of 1..=N: every rank in
/// that range is taken by some position, and no two positions share one.
pub proof fn lemma_rank_is_permutation(f: Seq<u64>, r: int)
    requires
        1 <= r <= f.len(),
    ensures
        exists|i: int| 0 <= i < f.len() && rank_of(f, i) == r,
        forall|i: int, j: int|
            0 <= i < f.len() && 0 <= j < f.len() && i != j ==> rank_of(f, i) != rank_of(f, j),
{
    let n = f.len() as int;
    let positions = vstd::set_lib::set_int_range(0, n);
    let ranks = vstd::set_lib::set_int_range(1, n + 1);
    let to_rank = |i: int| rank_of(f, i);
    let image = positions.map(to_rank);
    vstd::set_lib::lemma_int_range(0, n);
    vstd::set_lib::lemma_int_range(1, n + 1);
    assert forall|i: int, j: int|
        0 <= i < f.len() && 0 <= j < f.len() && i != j implies rank_of(f, i) != rank_of(
        f,
        j,
    ) by {
        lemma_rank_injective(f, i, j);
    }
    // The rank map is injective, so the image of the n positions has n
    // elements; it sits inside 1..=n, which also has n elements, so the two
    // sets coincide and every rank is attained.
    assert(vstd::relations::injective_on(to_rank, positions)) by {
        assert forall|x1: int, x2: int|
            positions.contains(x1) && positions.contains(x2) && #[trigger] to_rank(x1)
                == #[trigger] to_rank(x2) implies x1 == x2 by {
            if x1 != x2 {
                lemma_rank_injective(f, x1, x2);
            }
        }
    }
    vstd::set_lib::lemma_map_size(positions, image, to_rank);
    assert(image.subset_of(ranks)) by {
        assert forall|r2: int| image.contains(r2) implies ranks.contains(r2) by {
            let i = choose|i: int| positions.contains(i) && r2 == to_rank(i);
            lemma_rank_in_range(f, i);
        }
    }
    vstd::set_lib::lemma_subset_equality(image, ranks);
    assert(image.contains(r));
    let i = choose|i: int| positions.contains(i) && r == to_rank(i);
    assert(0 <= i < f.len() && rank_of(f, i) == r);
}

/// Rank-power scaling composes the power and rank policies: the weight is
/// the rank weight raised to `k`, capped; for `k = 2` it squares the rank
/// vector.
pub proof fn lemma_power_rank_composes(f: Seq<u64>, i: int, k: u32)
    requires
        0 <= i < f.len(),
    ensures
        scaled_weight(Scaling::PowerRank(k), f, i) == pow_capped(
            scaled_weight(Scaling::Rank, f, i),
            k,
        ),
{
}

/// Rank scaling is rank-power scaling with exponent 1.
pub proof fn lemma_rank_equals_power_rank_one(f: Seq<u64>, i: int)
    requires
        0 <= i < f.len(),
    ensures
        scaled_weight(Scaling::Rank, f, i) == scaled_weight(Scaling::PowerRank(1), f, i),
{
    let b = (rank_of(f, i) as u64) as int;
    vstd::arithmetic::power::lemma_pow1(b);
}

/// Below the cap, the square-power weight is the plain square.
pub proof fn lemma_pow_capped_square(b: u64)
    ensures
        pow_capped(b, 2) as int == (if (b as int) * (b as int) > u64::MAX as int {
            u64::MAX as int
        } else {
            (b as int) * (b as int)
        }),
{
    reveal_with_fuel(pow, 3);
    assert((b as int) * ((b as int) * 1) == (b as int) * (b as int)) by (nonlinear_arith);
}

/// The whole weight vector a policy assigns to a fitness vector.
pub open spec fn scaled_weights(s: Scaling, f: Seq<u64>) -> Seq<u64> {
    Seq::new(f.len(), |i: int| scaled_weight(s, f, i))
}

/// The weight a policy assigns to position `i` of a fitness vector.
pub open spec fn scaled_weight(s: Scaling, f: Seq<u64>, i: int) -> u64 {
    match s {
        Scaling::Proportionate => f[i],
        Scaling::Power(k) => pow_capped(f[i], k),
        Scaling::Rank => rank_of(f, i) as u64,
        Scaling::PowerRank(k) => pow_capped(rank_of(f, i) as u64, k),
    }
}

/// A selection scaling policy: a pure map from a fitness vector to a weight
/// vector of the same length, used to bias (not restrict) observer selection.
#[derive(Clone, Copy, Debug, PartialEq, Eq, Structural)]
pub enum Scaling {
    /// Weight = fitness.
    Proportionate,
    /// Weight = fitness^k, capped at `u64::MAX`.
    Power(u32),
    /// Weight = ascending rank by fitness, 1 to N.
    Rank,
    /// Weight = rank^k, capped at `u64::MAX`.
    PowerRank(u32),
}

impl Scaling {
    /// Applies the policy to a fitness vector.
    pub fn apply(&self, fitnesses: &Vec<u64>) -> (r: Vec<u64>)
        ensures
            r@.len() == fitnesses@.len(),
            forall|i: int| 0 <= i < r@.len() ==> r@[i] == scaled_weight(*self, fitnesses@, i),
    {
        let mut out: Vec<u64> = Vec::new();
        let mut i: usize = 0;
        while i < fitnesses.len()
            invariant
                i <= fitnesses@.len(),
                out@.len() == i,
                forall|j: int| 0 <= j < i ==> out@[j] == scaled_weight(*self, fitnesses@, j),
            decreases fitnesses@.len() - i,
        {
            let w: u64 = match self {
                Scaling::Proportionate => fitnesses[i],
                Scaling::Power(k) => pow_saturating(fitnesses[i], *k),
                Scaling::Rank => {
                    let rk = rank_in(fitnesses, i);
                    rk as u64
                }
                Scaling::PowerRank(k) => {
                    let rk = rank_in(fitnesses, i);
                    pow_saturating(rk as u64, *k)
                }
            };
            out.push(w);
            i = i + 1;
        }
        out
    }
}

/// Chooses solutions in direct proportion to their fitness.
pub fn proportionate() -> (r: Scaling)
    ensures
        r == Scaling::Proportionate,
{
    Scaling::Proportionate
}

/// Chooses more fit solutions polynomially more often:
/// weight = fitness^k, capped at `u64::MAX`.
pub fn power(k: u32) -> (r: Scaling)
    ensures
        r == Scaling::Power(k),
{
    Scaling::Power(k)
}

/// Chooses solutions according to their rank.
///
/// Rather than use the fitness directly, this ranks the N solutions 1 to N
/// in ascending order of fitness and uses the rank as the weight. So, the
/// solution with rank 6 is chosen twice as often as the solution with rank 3.
pub fn rank() -> (r: Scaling)
    ensures
        r == Scaling::Rank,
{
    Scaling::Rank
}

/// Chooses solutions according to their rank, raised to a certain power.
///
/// Conceptually composes the [`power`] and [`rank`] scaling techniques:
/// weight = rank^k, capped at `u64::MAX`. As with rank scaling, rank 1 is
/// the least fit and rank N the fittest.
pub fn power_rank(k: u32) -> (r: Scaling)
    ensures
        r == Scaling::PowerRank(k),
{
    Scaling::PowerRank(k)
}

/// The ascending rank of position `i`, computed by counting the positions
/// ranked below it.
fn rank_in(fitnesses: &Vec<u64>, i: usize) -> (r: usize)
    requires
        i < fitnesses.len(),
    ensures
        r == rank_of(fitnesses@, i as int),
        1 <= r <= fitnesses@.len(),
{
    let mut count: usize = 0;
    let mut j: usize = 0;
    while j < fitnesses.len()
        invariant
            j <= fitnesses@.len(),
            count == rank_count(fitnesses@, i as int, j as int),
            count <= j,
        decreases fitnesses@.len() - j,
    {
        if fitnesses[j] < fitnesses[i] || (fitnesses[j] == fitnesses[i] && j < i) {
            count = count + 1;
        }
        j = j + 1;
    }
    proof {
        lemma_rank_count_bound(fitnesses@, i as int, fitnesses@.len() as int);
    }
    count + 1
}

/// Computes `min(base^k, u64::MAX)` by repeated saturating multiplication.
fn pow_saturating(base: u64, k: u32) -> (r: u64)
    ensures
        r == pow_capped(base, k),
{
    let mut result: u64 = 1;
    let mut i: u32 = 0;
    proof {
        vstd::arithmetic::power::lemma_pow0(base as int);
    }
    while i < k
        invariant
            i <= k,
            result == pow_capped(base, i),
        decreases k - i,
    {
        proof {
            assert((result as int) * (base as int) < (u128::MAX as int)) by (nonlinear_arith)
                requires
                    result as int <= u64::MAX as int,
                    base as int <= u64::MAX as int;
        }
        let wide: u128 = (result as u128) * (base as u128);
        let next: u64 = if wide > (u64::MAX as u128) {
            u64::MAX
        } else {
            wide as u64
        };
        proof {
            lemma_pow_saturating_step(base, i, result, next);
        }
        result = next;
        i = i + 1;
    }
    result
}

proof fn lemma_pow_saturating_step(base: u64, i: u32, cur: u64, next: u64)
    requires
        i < u32::MAX,
        cur == pow_capped(base, i),
        next == if cur * base > u64::MAX { u64::MAX as int } else { cur * base },
    ensures
        next == pow_capped(base, (i + 1) as u32),
{
    let b = base as int;
    let p = pow(b, i as nat);
    let p1 = pow(b, (i + 1) as nat);
    vstd::arithmetic::power::lemma_pow0(b);
    assert(((i + 1) as u32) as nat == i as nat + 1);
    assert(p1 == b * pow(b, i as nat)) by {
        vstd::arithmetic::power::lemma_pow1(b);
        vstd::arithmetic::power::lemma_pow_adds(b, i as nat, 1nat);
        assert(pow(b, i as nat + 1) == pow(b, i as nat) * pow(b, 1nat));
        assert(pow(b, i as nat) * b == b * pow(b, i as nat)) by (nonlinear_arith);
    }
    assert(p >= 0) by {
        if b > 0 {
            vstd::arithmetic::power::lemma_pow_positive(b, i as nat);
        } else if i != 0 {
            vstd::arithmetic::power::lemma0_pow(i as nat);
        }
    }
    if p <= u64::MAX as int {
        // No cap yet: cur is exactly pow(b, i).
        assert(cur == p);
        assert(cur * base == p * b);
        assert(p * b == b * p) by (nonlinear_arith);
        assert(cur * base == p1);
    } else {
        // Already capped: the power stays above the cap, and so does the product.
        assert(cur == u64::MAX);
        if b == 0 {
            if i != 0 {
                vstd::arithmetic::power::lemma0_pow(i as nat);
            }
            assert(p <= 1);
            assert(false);
        }
        if b == 1 {
            vstd::arithmetic::power::lemma1_pow(i as nat);
            assert(false);
        }
        assert(b >= 2);
        assert(cur * base >= 2 * (u64::MAX as int)) by (nonlinear_arith)
            requires cur == u64::MAX as int, base >= 2;
        assert(p1 > u64::MAX as int) by (nonlinear_arith)
            requires p1 == b * p, b >= 2, p > u64::MAX as int;
    }
}

} // verus!
