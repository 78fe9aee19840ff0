//! The simulation driver: one arena, one colony, a fixed-horizon episode
//! loop, and the aggregated episode result the optimizer consumes.

use vstd::prelude::*;
use crate::fixed::{FX_ONE, tdiv};
use crate::environment::{
    Environment,
    spec_food_sum,
    spec_visited_count,
    env_decayed,
    MIN_ARENA_SIZE,
    MAX_ARENA_SIZE,
};
use crate::colony::{Colony, network_ok, spec_colony_tick};
use crate::neural_network::MLP;
use crate::rng::Rng;

verus! {

/// One arena and one colony, advanced tick by tick.
pub struct Simulation {
    pub arena: Environment,
    pub colony: Colony,
}

/// One driver tick: the arena decays, then the whole colony steps against
/// the decayed arena.
pub open spec fn spec_driver_tick(
    pre_e: Environment,
    pre_c: Colony,
    post_e: Environment,
    post_c: Colony,
) -> bool {
    exists|mid: Environment|
        #[trigger] env_decayed(mid, pre_e) && spec_colony_tick(pre_c, post_c, mid, post_e)
}

/// The states an episode passes through: tick `t` carries state `t` to
/// state `t + 1` by one decay pass and one colony pass.
pub open spec fn spec_run_chain(arenas: Seq<Environment>, colonies: Seq<Colony>) -> bool {
    forall|t: int|
        0 <= t < arenas.len() - 1 ==> spec_driver_tick(
            #[trigger] arenas[t],
            colonies[t],
            arenas[t + 1],
            colonies[t + 1],
        )
}

/// The aggregate outcome of one episode: how many ticks ran, how much food
/// came home, how much is left, and which fraction of cells was visited
/// (in micro-units).
pub struct SimulationResult {
    pub num_iters: usize,
    pub food_returned_to_nest: i64,
    pub food_remaining: i64,
    pub proportion_explored: i64,
}

impl SimulationResult {
    /// Bundles the four episode aggregates.
    pub fn new(
        num_iters: usize,
        food_returned_to_nest: i64,
        food_remaining: i64,
        proportion_explored: i64,
    ) -> (r: SimulationResult)
        ensures
            r.num_iters == num_iters,
            r.food_returned_to_nest == food_returned_to_nest,
            r.food_remaining == food_remaining,
            r.proportion_explored == proportion_explored,
    {
        SimulationResult { num_iters, food_returned_to_nest, food_remaining, proportion_explored }
    }
}

impl Simulation {
    /// The driver invariant: the arena is well formed and the colony fits
    /// it.
    pub open spec fn wf(self) -> bool {
        &&& self.arena.wf()
        &&& self.colony.wf(self.arena.size as int)
    }

    /// A fresh episode: one arena and `num_ants` agents at the start cell.
    pub fn new(
        arena_size: usize,
        diffusion_rate: i64,
        num_ants: usize,
        decision_network: MLP,
        rng: &mut Rng,
    ) -> (r: Simulation)
        requires
            MIN_ARENA_SIZE <= arena_size <= MAX_ARENA_SIZE,
            0 < diffusion_rate < FX_ONE,
        ensures
            r.arena.wf(),
            r.arena.size == arena_size,
            r.arena.diffusion_rate == diffusion_rate,
            r.arena.food_returned_to_nest == 0,
            forall|i: int, j: int|
                0 <= i < arena_size && 0 <= j < arena_size ==> Environment::is_initial_cell(
                    #[trigger] r.arena.spec_cell(i, j),
                    arena_size as int,
                    i,
                    j,
                ),
            r.colony.ants@.len() == num_ants,
            r.colony.decision_network == decision_network,
            network_ok(decision_network) ==> r.wf(),
    {
        let arena = Environment::new(arena_size, diffusion_rate);
        let colony = Colony::new(num_ants, decision_network, rng);
        Simulation { arena, colony }
    }

    /// Runs `num_steps` ticks: each tick decays the arena, then steps every
    /// agent in fixed order. Returns the tick count executed, the food
    /// delivered, the food remaining, and the visited fraction of the
    /// grid. A zero-step run leaves the arena exactly as constructed.
    pub fn run(&mut self, num_steps: usize, rng: &mut Rng) -> (r: SimulationResult)
        requires
            old(self).wf(),
        ensures
            final(self).wf(),
            final(self).arena.size == old(self).arena.size,
            final(self).colony.ants@.len() == old(self).colony.ants@.len(),
            r.num_iters == num_steps,
            r.food_returned_to_nest == final(self).arena.food_returned_to_nest,
            r.food_returned_to_nest >= old(self).arena.food_returned_to_nest,
            r.food_remaining == spec_food_sum(
                final(self).arena.grid@,
                final(self).arena.grid@.len() as int,
            ),
            r.proportion_explored == tdiv(
                spec_visited_count(final(self).arena.grid@, final(self).arena.grid@.len() as int)
                    * FX_ONE,
                (final(self).arena.size * final(self).arena.size) as int,
            ),
            num_steps == 0 ==> final(self).arena == old(self).arena,
            num_steps == 0 ==> final(self).colony == old(self).colony,
            forall|k: int|
                0 <= k < old(self).arena.grid@.len()
                    ==> (#[trigger] final(self).arena.grid@[k]).food_amount <= old(
                    self,
                ).arena.grid@[k].food_amount,
            exists|arenas: Seq<Environment>, colonies: Seq<Colony>|
                {
                    &&& arenas.len() == num_steps + 1
                    &&& colonies.len() == num_steps + 1
                    &&& arenas[0] == old(self).arena
                    &&& colonies[0] == old(self).colony
                    &&& arenas[num_steps as int] == final(self).arena
                    &&& colonies[num_steps as int] == final(self).colony
                    &&& #[trigger] spec_run_chain(arenas, colonies)
                },
            num_steps > 0 ==> forall|a: int|
                0 <= a < final(self).colony.ants@.len()
                    ==> (#[trigger] final(self).arena.spec_cell(
                    final(self).colony.ants@[a].grid_location@[0] as int,
                    final(self).colony.ants@[a].grid_location@[1] as int,
                )).visited,
    {
        let mut i: usize = 0;
        let ghost mut arenas: Seq<Environment> = seq![self.arena];
        let ghost mut colonies: Seq<Colony> = seq![self.colony];
        while i < num_steps
            invariant
                self.wf(),
                self.arena.size == old(self).arena.size,
                self.arena.diffusion_rate == old(self).arena.diffusion_rate,
                self.arena.grid@.len() == old(self).arena.grid@.len(),
                self.colony.ants@.len() == old(self).colony.ants@.len(),
                self.arena.food_returned_to_nest >= old(self).arena.food_returned_to_nest,
                i <= num_steps,
                i == 0 ==> self.arena == old(self).arena,
                i == 0 ==> self.colony == old(self).colony,
                forall|k: int|
                    0 <= k < old(self).arena.grid@.len()
                        ==> (#[trigger] self.arena.grid@[k]).food_amount <= old(
                        self,
                    ).arena.grid@[k].food_amount,
                arenas.len() == i + 1,
                colonies.len() == i + 1,
                arenas[0] == old(self).arena,
                colonies[0] == old(self).colony,
                arenas[i as int] == self.arena,
                colonies[i as int] == self.colony,
                forall|t: int|
                    0 <= t < i ==> spec_driver_tick(
                        #[trigger] arenas[t],
                        colonies[t],
                        arenas[t + 1],
                        colonies[t + 1],
                    ),
                i > 0 ==> forall|a: int|
                    0 <= a < self.colony.ants@.len() ==> (#[trigger] self.arena.spec_cell(
                        self.colony.ants@[a].grid_location@[0] as int,
                        self.colony.ants@[a].grid_location@[1] as int,
                    )).visited,
            decreases num_steps - i,
        {
            let ghost pre_arena = self.arena;
            let ghost pre_colony = self.colony;
            self.arena.update();
            let ghost mid_arena = self.arena;
            self.colony.update(&mut self.arena, rng);
            proof {
                assert(env_decayed(mid_arena, pre_arena));
                assert(spec_colony_tick(pre_colony, self.colony, mid_arena, self.arena));
                assert(spec_driver_tick(pre_arena, pre_colony, self.arena, self.colony));
                assert forall|k: int|
                    0 <= k < old(self).arena.grid@.len() implies (
                #[trigger] self.arena.grid@[k]).food_amount <= old(
                    self,
                ).arena.grid@[k].food_amount by {
                    assert(mid_arena.grid@[k].food_amount == pre_arena.grid@[k].food_amount);
                    assert(self.arena.grid@[k].food_amount <= mid_arena.grid@[k].food_amount);
                }
                arenas = arenas.push(self.arena);
                colonies = colonies.push(self.colony);
            }
            i += 1;
        }
        proof {
            assert(spec_run_chain(arenas, colonies));
        }
        let food_remaining = self.arena.total_food_remaining();
        let visited = self.arena.num_cells_visited();
        let size = self.arena.size;
        proof {
            assert(1 <= (size as int) * (size as int) <= 1_000_000) by (nonlinear_arith)
                requires
                    1 <= size as int <= 1_000,
            ;
        }
        let denom: i64 = (size * size) as i64;
        let proportion: i64 = ((visited as i64) * FX_ONE) / denom;
        SimulationResult::new(i, self.arena.food_returned_to_nest, food_remaining, proportion)
    }
}

} // verus!
