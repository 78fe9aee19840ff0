//! The population-based, gradient-free optimizer: an evolution-strategies
//! search over the policy network's flattened parameter space.
//!
//! One `step` samples a population of mirrored noise directions around the
//! mean parameter vector, evaluates a full simulation episode per
//! candidate, and moves the mean along the fitness-weighted combination of
//! the sampled directions. Fitness is shaped by centring it on the
//! population mean, and the optimizer minimizes: candidates that score
//! below the average pull the mean towards their noise direction.

use vstd::prelude::*;
use crate::fixed::{FX_ONE, tdiv, spec_clamp, fx_mul, spec_fx_mul};
use crate::simulation::{Simulation, SimulationResult};
use crate::colony::network_ok;
use crate::neural_network::{MLP, spec_expected_params, MAX_WIDTH, MAX_LAYERS, ACT_MAX};
use crate::environment::{MIN_ARENA_SIZE, MAX_ARENA_SIZE};
use crate::ant::ANT_NUM_SAMPLES;
use crate::rng::{Rng, spec_rng_iter, spec_signed_unit_draw};

verus! {

/// The largest supported population.
pub const MAX_POPULATION: usize = 10_000;

/// How many episodes each candidate is scored on; the candidate's fitness
/// is the average.
pub const EPISODES_PER_CANDIDATE: usize = 10;

/// The noise directions are exactly the seeded generator's draws: even
/// rows take `dim` successive signed unit draws, odd rows mirror the row
/// before them, and every entry lies in `[-FX_ONE, FX_ONE]`.
pub open spec fn spec_sampled_noises(noises: Seq<Vec<i32>>, s0: u64, n: int, dim: int) -> bool {
    &&& noises.len() == n
    &&& (forall|p: int| 0 <= p < n ==> (#[trigger] noises[p])@.len() == dim)
    &&& (forall|p: int, d: int|
        0 <= p < n && p % 2 == 0 && 0 <= d < dim ==> (#[trigger] noises[p]@[d]) as int
            == spec_signed_unit_draw(spec_rng_iter(s0, ((p / 2) * dim + d + 1) as nat)))
    &&& (forall|p: int, d: int|
        0 <= p < n && p % 2 == 1 && 0 <= d < dim ==> #[trigger] noises[p]@[d] == -noises[p
            - 1]@[d])
    &&& (forall|p: int, d: int|
        0 <= p < n && 0 <= d < dim ==> -FX_ONE <= #[trigger] noises[p]@[d] <= FX_ONE)
}

/// One sampled parameter: the mean plus the scaled noise, saturated into
/// the parameter range.
pub open spec fn spec_perturb(m: int, sigma: int, e: int) -> int {
    spec_clamp(m + tdiv(sigma * e, FX_ONE as int), i32::MIN as int, i32::MAX as int)
}

/// A fitness value saturated into the shaping range.
pub open spec fn spec_clamped_fitness(f: int) -> int {
    spec_clamp(f, -(ACT_MAX as int), ACT_MAX as int)
}

/// The sum of the first `n` saturated fitness values.
pub open spec fn spec_fitness_sum(fit: Seq<i64>, n: int) -> int
    decreases n,
{
    if n <= 0 {
        0
    } else {
        spec_fitness_sum(fit, n - 1) + spec_clamped_fitness(fit[n - 1] as int)
    }
}

/// The fitness-weighted combination of the first `p` noise directions in
/// dimension `d`: each direction is weighted by how far its candidate's
/// fitness lies below the population total (mean-centred advantage,
/// scaled by the population size).
pub open spec fn spec_advantage_dot(fit: Seq<i64>, noises: Seq<Vec<i32>>, d: int, p: int) -> int
    decreases p,
{
    if p <= 0 {
        0
    } else {
        spec_advantage_dot(fit, noises, d, p - 1) + (spec_fitness_sum(fit, fit.len() as int)
            - fit.len() * spec_clamped_fitness(fit[p - 1] as int)) * noises[p - 1]@[d]
    }
}

/// One dimension of the mean update: the learning-rate-scaled advantage
/// combination, rescaled by the population and the fixed-point unit, added
/// to the old mean and saturated into the parameter range.
pub open spec fn spec_mean_update(m: int, lr: int, dot: int, n: int) -> int {
    spec_clamp(
        m + tdiv(lr * dot, n * n * (FX_ONE as int) * (FX_ONE as int)),
        i32::MIN as int,
        i32::MAX as int,
    )
}

/// The episode objective the optimizer minimizes: food left counts
/// against, food delivered and exploration count in favour.
pub open spec fn spec_episode_fitness(r: SimulationResult) -> int {
    spec_clamp(
        -(r.food_returned_to_nest as int) + tdiv(r.food_remaining as int, 10)
            - r.proportion_explored as int,
        i64::MIN as int,
        i64::MAX as int,
    )
}

/// The scalar fitness of one episode result.
pub fn fitness_of(result: &SimulationResult) -> (r: i64)
    ensures
        r == spec_episode_fitness(*result),
{
    let rem: i128 = if result.food_remaining >= 0 {
        (result.food_remaining as i128) / 10
    } else {
        -((-(result.food_remaining as i128)) / 10)
    };
    let v: i128 = -(result.food_returned_to_nest as i128) + rem - (
    result.proportion_explored as i128);
    if v < i64::MIN as i128 {
        i64::MIN
    } else if v > i64::MAX as i128 {
        i64::MAX
    } else {
        v as i64
    }
}

/// What one optimizer generation did: the noise directions are exactly
/// the seeded generator's draws, and every dimension of the new mean is
/// the fitness-weighted update over those directions and the witnessed
/// per-candidate fitness values.
pub open spec fn spec_step_witness(
    noises: Seq<Vec<i32>>,
    fitnesses: Seq<i64>,
    pre: NES,
    post_mu: Seq<i32>,
    s0: u64,
) -> bool {
    &&& noises.len() == pre.population_size
    &&& fitnesses.len() == pre.population_size
    &&& (forall|p: int| 0 <= p < noises.len() ==> (#[trigger] noises[p])@.len() == pre.mu@.len())
    &&& spec_sampled_noises(noises, s0, pre.population_size as int, pre.mu@.len() as int)
    &&& forall|d: int|
        0 <= d < pre.mu@.len() ==> #[trigger] post_mu[d] == spec_mean_update(
            pre.mu@[d] as int,
            pre.learning_rate as int,
            spec_advantage_dot(fitnesses, noises, d, noises.len() as int),
            noises.len() as int,
        )
}

/// The optimizer state: the mean parameter vector, the spread of the
/// search, the population size, and the mean's learning rate.
pub struct NES {
    pub learning_rate: i64,
    pub sigma: i64,
    pub population_size: usize,
    pub mu: Vec<i32>,
}

impl NES {
    /// An optimizer over the given mean vector.
    pub fn new(learning_rate: i64, sigma: i64, population_size: usize, mu: Vec<i32>) -> (r: NES)
        ensures
            r.learning_rate == learning_rate,
            r.sigma == sigma,
            r.population_size == population_size,
            r.mu == mu,
    {
        NES { learning_rate, sigma, population_size, mu }
    }

    /// Draws the population's noise directions: mirrored pairs of vectors
    /// with entries uniform in `[-FX_ONE, FX_ONE]`.
    fn sample_noises(n: usize, dim: usize, rng: &mut Rng) -> (r: Vec<Vec<i32>>)
        ensures
            r@.len() == n,
            forall|p: int| 0 <= p < n ==> (#[trigger] r@[p])@.len() == dim,
            forall|p: int, d: int|
                0 <= p < n && 0 <= d < dim ==> -FX_ONE <= #[trigger] r@[p]@[d] <= FX_ONE,
            forall|p: int, d: int|
                0 <= p < n && p % 2 == 1 && 0 <= d < dim ==> #[trigger] r@[p]@[d] == -r@[p
                    - 1]@[d],
            spec_sampled_noises(r@, old(rng).state, n as int, dim as int),
            final(rng).state == spec_rng_iter(old(rng).state, (((n + 1) / 2) * dim) as nat),
    {
        let mut noises: Vec<Vec<i32>> = Vec::new();
        let mut p: usize = 0;
        while p < n
            invariant
                p <= n,
                noises@.len() == p,
                forall|t: int| 0 <= t < p ==> (#[trigger] noises@[t])@.len() == dim,
                forall|t: int, d: int|
                    0 <= t < p && 0 <= d < dim ==> -FX_ONE <= #[trigger] noises@[t]@[d]
                        <= FX_ONE,
                forall|t: int, d: int|
                    0 <= t < p && t % 2 == 1 && 0 <= d < dim ==> #[trigger] noises@[t]@[d]
                        == -noises@[t - 1]@[d],
                forall|t: int, d: int|
                    0 <= t < p && t % 2 == 0 && 0 <= d < dim ==> (#[trigger] noises@[t]@[
                        d]) as int == spec_signed_unit_draw(
                        spec_rng_iter(old(rng).state, ((t / 2) * dim + d + 1) as nat),
                    ),
                rng.state == spec_rng_iter(old(rng).state, (((p + 1) / 2) * dim) as nat),
            decreases n - p,
        {
            let mut row: Vec<i32> = Vec::new();
            if p % 2 == 1 {
                let mut d: usize = 0;
                while d < dim
                    invariant
                        p < noises@.len() + 1,
                        noises@.len() >= 1,
                        p >= 1,
                        d <= dim,
                        row@.len() == d,
                        (noises@[p - 1])@.len() == dim,
                        forall|t: int|
                            0 <= t < dim ==> -FX_ONE <= #[trigger] noises@[p - 1]@[t]
                                <= FX_ONE,
                        forall|t: int|
                            0 <= t < d ==> #[trigger] row@[t] == -noises@[p - 1]@[t],
                    decreases dim - d,
                {
                    let prev: i32 = noises[p - 1][d];
                    row.push(-prev);
                    d += 1;
                }
                proof {
                    assert((((p + 1) as int + 1) / 2) * dim == (((p as int) + 1) / 2) * dim)
                        by (nonlinear_arith)
                        requires
                            (p as int) % 2 == 1,
                            p >= 1,
                    ;
                }
            } else {
                proof {
                    assert((((p as int) + 1) / 2) * dim == ((p as int) / 2) * dim)
                        by (nonlinear_arith)
                        requires
                            (p as int) % 2 == 0,
                            p >= 0,
                    ;
                }
                let mut d: usize = 0;
                while d < dim
                    invariant
                        (p as int) % 2 == 0,
                        d <= dim,
                        row@.len() == d,
                        forall|t: int| 0 <= t < d ==> -FX_ONE <= #[trigger] row@[t] <= FX_ONE,
                        forall|t: int|
                            0 <= t < d ==> (#[trigger] row@[t]) as int == spec_signed_unit_draw(
                                spec_rng_iter(
                                    old(rng).state,
                                    (((p as int) / 2) * dim + t + 1) as nat,
                                ),
                            ),
                        rng.state == spec_rng_iter(
                            old(rng).state,
                            (((p as int) / 2) * dim + d) as nat,
                        ),
                    decreases dim - d,
                {
                    let e = rng.next_signed_unit_fx();
                    row.push(e as i32);
                    d += 1;
                }
                proof {
                    assert((((p + 1) as int + 1) / 2) * dim == ((p as int) / 2) * dim + dim)
                        by (nonlinear_arith)
                        requires
                            (p as int) % 2 == 0,
                            p >= 0,
                    ;
                }
            }
            noises.push(row);
            p += 1;
        }
        noises
    }

    /// Moves the mean along the fitness-weighted combination of the noise
    /// directions: exactly `spec_mean_update` in every dimension.
    pub fn update_mean(&mut self, noises: &Vec<Vec<i32>>, fitnesses: &Vec<i64>)
        requires
            1 <= old(self).population_size <= MAX_POPULATION,
            0 <= old(self).learning_rate <= FX_ONE,
            noises@.len() == old(self).population_size,
            fitnesses@.len() == old(self).population_size,
            forall|p: int| 0 <= p < noises@.len() ==> (#[trigger] noises@[p])@.len() == old(
                self,
            ).mu@.len(),
            forall|p: int, d: int|
                0 <= p < noises@.len() && 0 <= d < old(self).mu@.len() ==> -FX_ONE
                    <= #[trigger] noises@[p]@[d] <= FX_ONE,
        ensures
            final(self).learning_rate == old(self).learning_rate,
            final(self).sigma == old(self).sigma,
            final(self).population_size == old(self).population_size,
            final(self).mu@.len() == old(self).mu@.len(),
            forall|d: int|
                0 <= d < old(self).mu@.len() ==> #[trigger] final(self).mu@[d]
                    == spec_mean_update(
                    old(self).mu@[d] as int,
                    old(self).learning_rate as int,
                    spec_advantage_dot(fitnesses@, noises@, d, noises@.len() as int),
                    noises@.len() as int,
                ),
    {
        let n = self.population_size;
        // The population's total saturated fitness.
        let mut sum_f: i128 = 0;
        let mut p: usize = 0;
        while p < n
            invariant
                n == fitnesses@.len(),
                n <= MAX_POPULATION,
                p <= n,
                sum_f == spec_fitness_sum(fitnesses@, p as int),
                -(p as int) * (ACT_MAX as int) <= sum_f <= (p as int) * (ACT_MAX as int),
            decreases n - p,
        {
            let f = fitnesses[p];
            let cf: i64 = if f < -ACT_MAX {
                -ACT_MAX
            } else if f > ACT_MAX {
                ACT_MAX
            } else {
                f
            };
            proof {
                assert((p as int + 1) * (ACT_MAX as int) == (p as int) * (ACT_MAX as int)
                    + ACT_MAX as int) by (nonlinear_arith);
            }
            sum_f = sum_f + (cf as i128);
            p += 1;
        }
        proof {
            assert((n as int) * (ACT_MAX as int) <= 10_000 * (ACT_MAX as int))
                by (nonlinear_arith)
                requires
                    0 <= (n as int) <= 10_000,
            ;
        }
        let dim = self.mu.len();
        let mut d: usize = 0;
        while d < dim
            invariant
                n == self.population_size,
                n == fitnesses@.len(),
                n == noises@.len(),
                1 <= n <= MAX_POPULATION,
                0 <= self.learning_rate <= FX_ONE,
                self.learning_rate == old(self).learning_rate,
                self.sigma == old(self).sigma,
                self.population_size == old(self).population_size,
                dim == self.mu@.len(),
                dim == old(self).mu@.len(),
                forall|q: int| 0 <= q < noises@.len() ==> (#[trigger] noises@[q])@.len() == dim,
                forall|q: int, t: int|
                    0 <= q < noises@.len() && 0 <= t < dim ==> -FX_ONE
                        <= #[trigger] noises@[q]@[t] <= FX_ONE,
                sum_f == spec_fitness_sum(fitnesses@, n as int),
                -(n as int) * (ACT_MAX as int) <= sum_f <= (n as int) * (ACT_MAX as int),
                d <= dim,
                forall|t: int|
                    0 <= t < d ==> #[trigger] self.mu@[t] == spec_mean_update(
                        old(self).mu@[t] as int,
                        old(self).learning_rate as int,
                        spec_advantage_dot(fitnesses@, noises@, t, noises@.len() as int),
                        noises@.len() as int,
                    ),
                forall|t: int| d <= t < dim ==> #[trigger] self.mu@[t] == old(self).mu@[t],
            decreases dim - d,
        {
            let mut acc: i128 = 0;
            let mut p: usize = 0;
            while p < n
                invariant
                    n == fitnesses@.len(),
                    n == noises@.len(),
                    1 <= n <= MAX_POPULATION,
                    dim == self.mu@.len(),
                    d < dim,
                    forall|q: int| 0 <= q < noises@.len() ==> (#[trigger] noises@[q])@.len()
                        == dim,
                    forall|q: int, t: int|
                        0 <= q < noises@.len() && 0 <= t < dim ==> -FX_ONE
                            <= #[trigger] noises@[q]@[t] <= FX_ONE,
                    sum_f == spec_fitness_sum(fitnesses@, n as int),
                    -(n as int) * (ACT_MAX as int) <= sum_f <= (n as int) * (ACT_MAX as int),
                    p <= n,
                    acc == spec_advantage_dot(fitnesses@, noises@, d as int, p as int),
                    -(p as int) * 20_000_000_000_000_000_000_000 <= acc <= (p as int)
                        * 20_000_000_000_000_000_000_000,
                decreases n - p,
            {
                let f = fitnesses[p];
                let cf: i64 = if f < -ACT_MAX {
                    -ACT_MAX
                } else if f > ACT_MAX {
                    ACT_MAX
                } else {
                    f
                };
                proof {
                    assert(-10_000_000_000_000_000 <= (n as int) * (cf as int)
                        <= 10_000_000_000_000_000) by (nonlinear_arith)
                        requires
                            1 <= (n as int) <= 10_000,
                            -(ACT_MAX as int) <= (cf as int) <= ACT_MAX as int,
                            ACT_MAX as int == 1_000_000_000_000,
                    ;
                    assert(-10_000_000_000_000_000 <= sum_f <= 10_000_000_000_000_000)
                        by (nonlinear_arith)
                        requires
                            -(n as int) * (ACT_MAX as int) <= sum_f as int <= (n as int) * (
                            ACT_MAX as int),
                            1 <= (n as int) <= 10_000,
                            ACT_MAX as int == 1_000_000_000_000,
                    ;
                }
                let advantage: i128 = sum_f - (n as i128) * (cf as i128);
                let e: i32 = noises[p][d];
                proof {
                    assert(-20_000_000_000_000_000_000_000 <= (advantage as int) * (e as int)
                        <= 20_000_000_000_000_000_000_000) by (nonlinear_arith)
                        requires
                            -20_000_000_000_000_000 <= advantage as int <= 20_000_000_000_000_000,
                            -FX_ONE <= (e as int) <= FX_ONE,
                            FX_ONE as int == 1_000_000,
                    ;
                    assert((p as int + 1) * 20_000_000_000_000_000_000_000 == (p as int)
                        * 20_000_000_000_000_000_000_000 + 20_000_000_000_000_000_000_000)
                        by (nonlinear_arith);
                    assert((p as int) * 20_000_000_000_000_000_000_000 <= 10_000
                        * 20_000_000_000_000_000_000_000) by (nonlinear_arith)
                        requires
                            0 <= (p as int) <= 10_000,
                    ;
                }
                acc = acc + advantage * (e as i128);
                p += 1;
            }
            proof {
                assert(-200_000_000_000_000_000_000_000_000 <= acc
                    <= 200_000_000_000_000_000_000_000_000) by (nonlinear_arith)
                    requires
                        -(n as int) * 20_000_000_000_000_000_000_000 <= acc as int <= (n as int)
                            * 20_000_000_000_000_000_000_000,
                        0 <= (n as int) <= 10_000,
                ;
                assert(-200_000_000_000_000_000_000_000_000_000_000 <= (
                self.learning_rate as int) * (acc as int)
                    <= 200_000_000_000_000_000_000_000_000_000_000) by (nonlinear_arith)
                    requires
                        0 <= (self.learning_rate as int) <= 1_000_000,
                        -200_000_000_000_000_000_000_000_000 <= (acc as int)
                            <= 200_000_000_000_000_000_000_000_000,
                ;
                assert(1 <= (n as int) * (n as int) * (FX_ONE as int) * (FX_ONE as int)
                    <= 100_000_000_000_000_000_000) by (nonlinear_arith)
                    requires
                        1 <= (n as int) <= 10_000,
                        FX_ONE as int == 1_000_000,
                ;
            }
            let numer: i128 = (self.learning_rate as i128) * acc;
            let denom: i128 = (n as i128) * (n as i128) * (FX_ONE as i128) * (FX_ONE as i128);
            let delta: i128 = if numer >= 0 {
                numer / denom
            } else {
                -((-numer) / denom)
            };
            assert(delta == tdiv(
                self.learning_rate as int * acc as int,
                (n as int) * (n as int) * (FX_ONE as int) * (FX_ONE as int),
            ));
            let v: i128 = (self.mu[d] as i128) + delta;
            let updated: i32 = if v < i32::MIN as i128 {
                i32::MIN
            } else if v > i32::MAX as i128 {
                i32::MAX
            } else {
                v as i32
            };
            self.mu.set(d, updated);
            d += 1;
        }
    }

    /// One optimizer generation: sample a mirrored population around the
    /// mean, run one full simulation episode per candidate, and move the
    /// mean by the fitness-weighted combination of the noise directions.
    /// A single step is stochastic and need not improve; the contract
    /// pins the state's shape, and `update_mean` pins the applied update.
    pub fn step(
        &mut self,
        hidden_sizes: &Vec<usize>,
        arena_size: usize,
        diffusion_rate: i64,
        num_ants: usize,
        num_steps: usize,
        rng: &mut Rng,
    )
        requires
            1 <= old(self).population_size <= MAX_POPULATION,
            0 <= old(self).learning_rate <= FX_ONE,
            0 < old(self).sigma <= ACT_MAX,
            1 <= hidden_sizes@.len() <= MAX_LAYERS,
            forall|k: int|
                0 <= k < hidden_sizes@.len() ==> 1 <= #[trigger] hidden_sizes@[k] <= MAX_WIDTH,
            old(self).mu@.len() == spec_expected_params(
                3 + 7 * ANT_NUM_SAMPLES,
                hidden_sizes@,
                hidden_sizes@.len() as int,
            ),
            MIN_ARENA_SIZE <= arena_size <= MAX_ARENA_SIZE,
            0 < diffusion_rate < FX_ONE,
        ensures
            final(self).learning_rate == old(self).learning_rate,
            final(self).sigma == old(self).sigma,
            final(self).population_size == old(self).population_size,
            final(self).mu@.len() == old(self).mu@.len(),
            exists|noises: Seq<Vec<i32>>, fitnesses: Seq<i64>|
                #[trigger] spec_step_witness(
                    noises,
                    fitnesses,
                    *old(self),
                    final(self).mu@,
                    old(rng).state,
                ),
    {
        let n = self.population_size;
        let dim = self.mu.len();
        let noises = Self::sample_noises(n, dim, rng);
        let mut fitnesses: Vec<i64> = Vec::new();
        let mut p: usize = 0;
        while p < n
            invariant
                n == self.population_size,
                1 <= n <= MAX_POPULATION,
                0 <= self.learning_rate <= FX_ONE,
                0 < self.sigma <= ACT_MAX,
                self.learning_rate == old(self).learning_rate,
                self.sigma == old(self).sigma,
                self.population_size == old(self).population_size,
                self.mu == old(self).mu,
                dim == self.mu@.len(),
                1 <= hidden_sizes@.len() <= MAX_LAYERS,
                forall|k: int|
                    0 <= k < hidden_sizes@.len() ==> 1 <= #[trigger] hidden_sizes@[k]
                        <= MAX_WIDTH,
                dim == spec_expected_params(
                    3 + 7 * ANT_NUM_SAMPLES,
                    hidden_sizes@,
                    hidden_sizes@.len() as int,
                ),
                MIN_ARENA_SIZE <= arena_size <= MAX_ARENA_SIZE,
                0 < diffusion_rate < FX_ONE,
                noises@.len() == n,
                forall|q: int| 0 <= q < n ==> (#[trigger] noises@[q])@.len() == dim,
                forall|q: int, t: int|
                    0 <= q < n && 0 <= t < dim ==> -FX_ONE <= #[trigger] noises@[q]@[t]
                        <= FX_ONE,
                p <= n,
                fitnesses@.len() == p,
            decreases n - p,
        {
            // Score the candidate on several independent episodes and
            // average, so one lucky rollout counts less. Each episode
            // rebuilds the candidate network from the mean, the spread and
            // this direction's noise.
            let mut total: i128 = 0;
            let mut run_index: usize = 0;
            while run_index < EPISODES_PER_CANDIDATE
                invariant
                    0 < self.sigma <= ACT_MAX,
                    dim == self.mu@.len(),
                    p < noises@.len(),
                    (noises@[p as int])@.len() == dim,
                    forall|q: int|
                        0 <= q < dim ==> -FX_ONE <= #[trigger] noises@[p as int]@[q] <= FX_ONE,
                    1 <= hidden_sizes@.len() <= MAX_LAYERS,
                    forall|k: int|
                        0 <= k < hidden_sizes@.len() ==> 1 <= #[trigger] hidden_sizes@[k]
                            <= MAX_WIDTH,
                    dim == spec_expected_params(
                        3 + 7 * ANT_NUM_SAMPLES,
                        hidden_sizes@,
                        hidden_sizes@.len() as int,
                    ),
                    MIN_ARENA_SIZE <= arena_size <= MAX_ARENA_SIZE,
                    0 < diffusion_rate < FX_ONE,
                    run_index <= EPISODES_PER_CANDIDATE,
                    -(run_index as int) * 0x8000_0000_0000_0000 <= total <= (run_index as int)
                        * 0x8000_0000_0000_0000,
                decreases EPISODES_PER_CANDIDATE - run_index,
            {
                // The candidate: the mean plus this direction's scaled
                // noise.
                let mut candidate: Vec<i32> = Vec::new();
                let mut t: usize = 0;
                while t < dim
                    invariant
                        0 < self.sigma <= ACT_MAX,
                        dim == self.mu@.len(),
                        p < noises@.len(),
                        (noises@[p as int])@.len() == dim,
                        forall|q: int|
                            0 <= q < dim ==> -FX_ONE <= #[trigger] noises@[p as int]@[q]
                                <= FX_ONE,
                        t <= dim,
                        candidate@.len() == t,
                        forall|u: int|
                            0 <= u < t ==> #[trigger] candidate@[u] == spec_perturb(
                                self.mu@[u] as int,
                                self.sigma as int,
                                noises@[p as int]@[u] as int,
                            ),
                    decreases dim - t,
                {
                    let e: i32 = noises[p][t];
                    proof {
                        assert(-(ACT_MAX as int) <= spec_fx_mul(self.sigma as int, e as int)
                            <= ACT_MAX as int) by (nonlinear_arith)
                            requires
                                0 < (self.sigma as int) <= ACT_MAX as int,
                                -FX_ONE <= (e as int) <= FX_ONE,
                                FX_ONE as int == 1_000_000,
                                ACT_MAX as int == 1_000_000_000_000,
                        ;
                    }
                    let delta = fx_mul(self.sigma, e as i64);
                    let v: i64 = (self.mu[t] as i64) + delta;
                    let c: i32 = if v < i32::MIN as i64 {
                        i32::MIN
                    } else if v > i32::MAX as i64 {
                        i32::MAX
                    } else {
                        v as i32
                    };
                    candidate.push(c);
                    t += 1;
                }
                // Rebuild the architecture list for this candidate.
                let mut hs: Vec<usize> = Vec::new();
                let mut q: usize = 0;
                let hn = hidden_sizes.len();
                while q < hn
                    invariant
                        hn == hidden_sizes@.len(),
                        q <= hn,
                        hs@ == hidden_sizes@.subrange(0, q as int),
                    decreases hn - q,
                {
                    let x = hidden_sizes[q];
                    hs.push(x);
                    proof {
                        assert(hidden_sizes@.subrange(0, q as int + 1)
                            =~= hidden_sizes@.subrange(0, q as int).push(x));
                    }
                    q += 1;
                }
                proof {
                    assert(hidden_sizes@.subrange(0, hn as int) =~= hidden_sizes@);
                }
                let input_dim: usize = 3 + 7 * ANT_NUM_SAMPLES;
                let network = match MLP::from_flattened_weights(input_dim, hs, candidate) {
                    Ok(m) => m,
                    Err(_) => {
                        proof {
                            assert(false);
                        }
                        MLP { layers: Vec::new() }
                    },
                };
                proof {
                    let layers = network.layers@;
                    let ln = layers.len() as int;
                    assert(layers[ln - 1].b@.len() == hidden_sizes@[ln - 1]);
                    assert(network_ok(network));
                }
                let mut simulation = Simulation::new(
                    arena_size,
                    diffusion_rate,
                    num_ants,
                    network,
                    rng,
                );
                let result = simulation.run(num_steps, rng);
                let fitness = fitness_of(&result);
                proof {
                    assert((run_index as int + 1) * 0x8000_0000_0000_0000 == (run_index as int)
                        * 0x8000_0000_0000_0000 + 0x8000_0000_0000_0000) by (nonlinear_arith);
                    assert((run_index as int) * 0x8000_0000_0000_0000 <= 10
                        * 0x8000_0000_0000_0000) by (nonlinear_arith)
                        requires
                            0 <= (run_index as int) <= 10,
                    ;
                }
                total = total + (fitness as i128);
                run_index += 1;
            }
            proof {
                assert((EPISODES_PER_CANDIDATE as int) * 0x8000_0000_0000_0000 == 10
                    * 0x8000_0000_0000_0000) by (nonlinear_arith);
            }
            let average: i128 = if total >= 0 {
                total / (EPISODES_PER_CANDIDATE as i128)
            } else {
                -((-total) / (EPISODES_PER_CANDIDATE as i128))
            };
            let fitness: i64 = if average < i64::MIN as i128 {
                i64::MIN
            } else if average > i64::MAX as i128 {
                i64::MAX
            } else {
                average as i64
            };
            fitnesses.push(fitness);
            p += 1;
        }
        self.update_mean(&noises, &fitnesses);
        proof {
            assert(spec_step_witness(noises@, fitnesses@, *old(self), self.mu@, old(rng).state));
        }
    }
}

} // verus!
