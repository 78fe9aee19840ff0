//! The colony: the agents and the policy network they share, advanced one
//! agent at a time in fixed order.

use vstd::prelude::*;
use crate::ant::{
    Ant,
    ANT_NUM_SAMPLES,
    ANT_VELOCITY,
    ANT_MAX_PERCEPTION,
    ANT_FIELD_OF_VIEW,
};
use crate::fixed::FX_ONE;
use crate::trig::{FULL_TURN, spec_fx_cos, spec_fx_sin};
use crate::utils::Vec2;
use crate::environment::{Environment, Cell, lemma_grid_index, spec_visited_marked};
use crate::ant::{spec_tick_effect};
use crate::neural_network::{MLP, mlp_wf};
use crate::rng::{Rng, spec_mix64, spec_rng_iter};

verus! {

/// Whether a network fits the agents' observation vectors and produces at
/// least the one output the decision step reads.
pub open spec fn network_ok(m: MLP) -> bool {
    &&& mlp_wf(m.layers@, 3 + 7 * ANT_NUM_SAMPLES)
    &&& m.layers@.len() > 0
    &&& m.layers@[m.layers@.len() - 1].b@.len() > 0
}

/// One slot of a colony tick: agent `pre_a` became `post_a` by one full
/// tick against arena `pre_e`, and the arena became `post_e` by that tick
/// followed by marking the agent's final cell visited.
pub open spec fn spec_agent_slot(
    pre_a: Ant,
    post_a: Ant,
    pre_e: Environment,
    post_e: Environment,
) -> bool {
    exists|mid: Environment|
        #[trigger] spec_tick_effect(pre_a, post_a, pre_e, mid) && spec_visited_marked(
            post_e,
            mid,
            post_a.grid_location@[0] as int,
            post_a.grid_location@[1] as int,
        )
}

/// The arena states a colony tick passes through: slot `t` carries agent
/// `t` from the arena its predecessors left to the arena it leaves.
pub open spec fn spec_colony_chain(envs: Seq<Environment>, pre_c: Colony, post_c: Colony) -> bool {
    forall|t: int|
        0 <= t < pre_c.ants@.len() ==> spec_agent_slot(
            pre_c.ants@[t],
            post_c.ants@[t],
            #[trigger] envs[t],
            envs[t + 1],
        )
}

/// One whole colony tick: every agent stepped exactly once, in ascending
/// index order, each against the arena state its predecessors left, its
/// final cell marked visited immediately after its step.
pub open spec fn spec_colony_tick(
    pre_c: Colony,
    post_c: Colony,
    pre_e: Environment,
    post_e: Environment,
) -> bool {
    &&& post_c.ants@.len() == pre_c.ants@.len()
    &&& post_c.decision_network == pre_c.decision_network
    &&& exists|envs: Seq<Environment>|
        {
            &&& envs.len() == pre_c.ants@.len() + 1
            &&& envs[0] == pre_e
            &&& envs[pre_c.ants@.len() as int] == post_e
            &&& #[trigger] spec_colony_chain(envs, pre_c, post_c)
        }
}

/// The whole colony of agents and their shared decision network.
pub struct Colony {
    pub ants: Vec<Ant>,
    pub decision_network: MLP,
}

impl Colony {
    /// The colony invariant against an arena of edge `env_size`: every
    /// agent is well formed, samples the standard number of cells, and the
    /// shared network accepts their observation vectors.
    pub open spec fn wf(self, env_size: int) -> bool {
        &&& forall|a: int| 0 <= a < self.ants@.len() ==> (#[trigger] self.ants@[a]).wf(env_size)
        &&& forall|a: int|
            0 <= a < self.ants@.len() ==> (#[trigger] self.ants@[a]).num_samples
                == ANT_NUM_SAMPLES
        &&& network_ok(self.decision_network)
    }

    /// A colony of `num_ants` fresh agents at the start cell, each with an
    /// independent random heading, sharing `decision_network`.
    pub fn new(num_ants: usize, decision_network: MLP, rng: &mut Rng) -> (r: Colony)
        ensures
            r.ants@.len() == num_ants,
            r.decision_network == decision_network,
            forall|a: int, es: int|
                0 <= a < num_ants && es >= 3 ==> #[trigger] r.ants@[a].wf(es),
            forall|a: int|
                0 <= a < num_ants ==> (#[trigger] r.ants@[a]).num_samples == ANT_NUM_SAMPLES,
            forall|a: int| 0 <= a < num_ants ==> !(#[trigger] r.ants@[a]).has_food,
            forall|a: int|
                0 <= a < num_ants ==> (#[trigger] r.ants@[a]).grid_location@[0] == 1 && r.ants@[
                    a].grid_location@[1] == 1,
            forall|a: int|
                0 <= a < num_ants ==> (#[trigger] r.ants@[a]).coordinates == (Vec2 {
                    x: FX_ONE,
                    y: FX_ONE,
                }),
            forall|a: int|
                0 <= a < num_ants ==> (#[trigger] r.ants@[a]).velocity == ANT_VELOCITY
                    && r.ants@[a].max_perception_distance == ANT_MAX_PERCEPTION && r.ants@[
                    a].field_of_view == ANT_FIELD_OF_VIEW,
            forall|a: int|
                0 <= a < num_ants ==> ({
                    let t = spec_mix64(spec_rng_iter(old(rng).state, (a + 1) as nat)) % (
                    FULL_TURN as u64);
                    (#[trigger] r.ants@[a]).direction.x == spec_fx_cos(t as int) && r.ants@[
                        a].direction.y == spec_fx_sin(t as int)
                }),
            final(rng).state == spec_rng_iter(old(rng).state, num_ants as nat),
    {
        let mut ants: Vec<Ant> = Vec::new();
        let mut a: usize = 0;
        while a < num_ants
            invariant
                a <= num_ants,
                ants@.len() == a,
                forall|t: int, es: int|
                    0 <= t < a && es >= 3 ==> #[trigger] ants@[t].wf(es),
                forall|t: int|
                    0 <= t < a ==> (#[trigger] ants@[t]).num_samples == ANT_NUM_SAMPLES,
                forall|t: int| 0 <= t < a ==> !(#[trigger] ants@[t]).has_food,
                forall|t: int|
                    0 <= t < a ==> (#[trigger] ants@[t]).grid_location@[0] == 1 && ants@[
                        t].grid_location@[1] == 1,
                forall|t: int|
                    0 <= t < a ==> (#[trigger] ants@[t]).coordinates == (Vec2 {
                        x: FX_ONE,
                        y: FX_ONE,
                    }),
                forall|t: int|
                    0 <= t < a ==> (#[trigger] ants@[t]).velocity == ANT_VELOCITY && ants@[
                        t].max_perception_distance == ANT_MAX_PERCEPTION && ants@[
                        t].field_of_view == ANT_FIELD_OF_VIEW,
                forall|t: int|
                    0 <= t < a ==> ({
                        let h = spec_mix64(spec_rng_iter(old(rng).state, (t + 1) as nat)) % (
                        FULL_TURN as u64);
                        (#[trigger] ants@[t]).direction.x == spec_fx_cos(h as int) && ants@[
                            t].direction.y == spec_fx_sin(h as int)
                    }),
                rng.state == spec_rng_iter(old(rng).state, a as nat),
            decreases num_ants - a,
        {
            let ant = Ant::new(rng);
            ants.push(ant);
            a += 1;
        }
        Colony { ants, decision_network }
    }

    /// One tick of the whole colony: every agent steps in array order, and
    /// the cell it ends on is marked visited. The order is part of the
    /// semantics: each agent sees the arena as the agents before it left
    /// it.
    pub fn update(&mut self, environment: &mut Environment, rng: &mut Rng)
        requires
            old(environment).wf(),
            old(self).wf(old(environment).size as int),
        ensures
            final(environment).wf(),
            final(environment).size == old(environment).size,
            final(environment).diffusion_rate == old(environment).diffusion_rate,
            final(environment).grid@.len() == old(environment).grid@.len(),
            final(environment).food_returned_to_nest >= old(
                environment,
            ).food_returned_to_nest,
            final(self).wf(final(environment).size as int),
            final(self).ants@.len() == old(self).ants@.len(),
            final(self).decision_network == old(self).decision_network,
            forall|k: int|
                0 <= k < old(environment).grid@.len() && old(environment).grid@[k].visited
                    ==> #[trigger] final(environment).grid@[k].visited,
            forall|a: int|
                0 <= a < final(self).ants@.len() ==> (#[trigger] final(environment).spec_cell(
                    final(self).ants@[a].grid_location@[0] as int,
                    final(self).ants@[a].grid_location@[1] as int,
                )).visited,
            forall|k: int|
                0 <= k < old(environment).grid@.len()
                    ==> (#[trigger] final(environment).grid@[k]).food_amount <= old(
                    environment,
                ).grid@[k].food_amount,
            spec_colony_tick(*old(self), *final(self), *old(environment), *final(environment)),
    {
        let n = self.ants.len();
        let mut a: usize = 0;
        let ghost mut envs: Seq<Environment> = seq![*environment];
        while a < n
            invariant
                environment.wf(),
                environment.size == old(environment).size,
                environment.diffusion_rate == old(environment).diffusion_rate,
                environment.grid@.len() == old(environment).grid@.len(),
                environment.food_returned_to_nest >= old(environment).food_returned_to_nest,
                self.wf(environment.size as int),
                self.ants@.len() == n,
                n == old(self).ants@.len(),
                self.decision_network == old(self).decision_network,
                a <= n,
                forall|k: int|
                    0 <= k < old(environment).grid@.len() && old(environment).grid@[k].visited
                        ==> #[trigger] environment.grid@[k].visited,
                forall|t: int|
                    0 <= t < a ==> (#[trigger] environment.spec_cell(
                        self.ants@[t].grid_location@[0] as int,
                        self.ants@[t].grid_location@[1] as int,
                    )).visited,
                forall|t: int| a <= t < n ==> #[trigger] self.ants@[t] == old(self).ants@[t],
                forall|k: int|
                    0 <= k < old(environment).grid@.len()
                        ==> (#[trigger] environment.grid@[k]).food_amount <= old(
                        environment,
                    ).grid@[k].food_amount,
                envs.len() == a + 1,
                envs[0] == *old(environment),
                envs[a as int] == *environment,
                forall|t: int|
                    0 <= t < a ==> spec_agent_slot(
                        old(self).ants@[t],
                        self.ants@[t],
                        #[trigger] envs[t],
                        envs[t + 1],
                    ),
            decreases n - a,
        {
            let ghost env0 = *environment;
            let mut ant = self.ants[a];
            ant.update(environment, &self.decision_network, rng);
            let ghost env1 = *environment;
            self.ants.set(a, ant);
            environment.set_cell_as_visited(ant.grid_location);
            proof {
                let s = environment.size as int;
                let ic = ant.grid_location@[0] as int;
                let jc = ant.grid_location@[1] as int;
                lemma_grid_index(s, ic, jc);
                assert forall|t: int|
                    0 <= t <= a implies (#[trigger] environment.spec_cell(
                    self.ants@[t].grid_location@[0] as int,
                    self.ants@[t].grid_location@[1] as int,
                )).visited by {
                    let i2 = self.ants@[t].grid_location@[0] as int;
                    let j2 = self.ants@[t].grid_location@[1] as int;
                    lemma_grid_index(s, i2, j2);
                    let k2 = i2 * s + j2;
                    if t < a {
                        assert(env0.spec_cell(i2, j2).visited);
                        assert(env1.grid@[k2].visited == env0.grid@[k2].visited);
                        if k2 != ic * s + jc {
                            assert(environment.grid@[k2] == env1.grid@[k2]);
                        }
                    }
                }
                // Food never appears: the tick can only harvest, and the
                // visited mark keeps every amount.
                assert forall|k: int|
                    0 <= k < old(environment).grid@.len() implies (
                #[trigger] environment.grid@[k]).food_amount <= old(
                    environment,
                ).grid@[k].food_amount by {
                    assert(env1.grid@[k].food_amount <= env0.grid@[k].food_amount);
                    if k != ic * s + jc {
                        assert(environment.grid@[k] == env1.grid@[k]);
                    } else {
                        assert(environment.spec_cell(ic, jc) == (Cell {
                            visited: true,
                            ..env1.spec_cell(ic, jc)
                        }));
                    }
                }
                // Record this agent's slot in the chain.
                assert(spec_tick_effect(old(self).ants@[a as int], ant, env0, env1));
                assert(spec_visited_marked(*environment, env1, ic, jc));
                assert(spec_agent_slot(old(self).ants@[a as int], ant, env0, *environment));
                envs = envs.push(*environment);
                assert forall|t: int|
                    0 <= t < a + 1 implies spec_agent_slot(
                    old(self).ants@[t],
                    self.ants@[t],
                    #[trigger] envs[t],
                    envs[t + 1],
                ) by {
                    assert(envs[t] == envs.subrange(0, envs.len() - 1)[t] || true);
                }
            }
            a += 1;
        }
        proof {
            assert(spec_colony_chain(envs, *old(self), *self));
            assert(envs.len() == old(self).ants@.len() + 1 && envs[0] == *old(environment)
                && envs[old(self).ants@.len() as int] == *environment);
        }
    }
}

} // verus!
