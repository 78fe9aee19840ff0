//! The foraging agent: continuous position, approximately unit heading,
//! randomized perception, and the carrying-food state machine.
//!
//! An agent is always in one of two modes, seeking food or returning to the
//! nest, discriminated solely by `has_food`. Each tick it moves, forages,
//! deposits the pheromone of its current mode, and turns by the angle its
//! policy network outputs.

use vstd::prelude::*;
use crate::fixed::{FX_ONE, fx_mul, spec_fx_mul};
use crate::environment::{
    Environment,
    Cell,
    spec_deposit,
    spec_harvest,
    HARVEST_QUANTUM,
    MAX_ARENA_SIZE,
    cell_wf,
    lemma_grid_index,
};
use crate::utils::{
    Vec2,
    rotate_array2,
    random_rotation,
    random_unit_vector,
    get_direction_from_coords,
    spec_norm_dir,
    spec_rotate,
};
use crate::trig::{FULL_TURN, HALF_TURN, angle_mod};
use crate::neural_network::{MLP, mlp_wf, activations_bounded};
use crate::rng::Rng;

verus! {

/// The distance an agent covers per tick (the real value 0.5).
pub const ANT_VELOCITY: i64 = 500_000;

/// How far an agent can sample its surroundings (the real value 10.0).
pub const ANT_MAX_PERCEPTION: i64 = 10_000_000;

/// The perception cone: half a turn, the real angle pi.
pub const ANT_FIELD_OF_VIEW: i64 = HALF_TURN;

/// How many cells one perception pass samples.
pub const ANT_NUM_SAMPLES: usize = 5;

/// How often a blocked move is retried before the agent stays put.
pub const MOVE_RETRY_LIMIT: usize = 10;

/// How often an out-of-bounds perception draw is redrawn before the
/// agent's own cell stands in.
pub const PERCEPTION_RETRY_LIMIT: usize = 10;

/// The reward for harvesting food (the real value 0.1).
pub const HARVEST_REWARD: i64 = 100_000;

/// The reward for delivering food to the nest (the real value 1.0).
pub const DELIVERY_REWARD: i64 = 1_000_000;

/// One foraging agent.
#[derive(Clone, Copy)]
pub struct Ant {
    pub coordinates: Vec2,
    pub direction: Vec2,
    pub velocity: i64,
    pub max_perception_distance: i64,
    pub field_of_view: i64,
    pub grid_location: [usize; 2],
    pub has_food: bool,
    pub num_samples: usize,
}

/// The agent's tuning parameters, which no operation changes.
pub open spec fn same_params(a: Ant, b: Ant) -> bool {
    &&& a.velocity == b.velocity
    &&& a.max_perception_distance == b.max_perception_distance
    &&& a.field_of_view == b.field_of_view
    &&& a.num_samples == b.num_samples
}

/// `c` is one of the arena's cells.
pub open spec fn cell_in_env(c: Cell, env: Environment) -> bool {
    exists|i: int, j: int|
        0 <= i < env.size && 0 <= j < env.size && c == #[trigger] env.spec_cell(i, j)
}

/// A cell's values are in range and its coordinates fit the supported
/// arena sizes.
pub open spec fn cell_sane(c: Cell) -> bool {
    &&& c.coordinates@[0] <= MAX_ARENA_SIZE
    &&& c.coordinates@[1] <= MAX_ARENA_SIZE
    &&& 0 <= c.nest_pheromone_concentration <= FX_ONE
    &&& 0 <= c.food_pheromone_concentration <= FX_ONE
    &&& 0 <= c.food_amount <= FX_ONE
}

/// The point a perception draw with angle offset `u` and distance `dist`
/// lands on: the heading turned by `u - fov/2` micro-turns, walked `dist`
/// micro-units from the agent's position.
pub open spec fn spec_sample_point(a: Ant, u: int, dist: int) -> (int, int) {
    let dir = spec_rotate(
        a.direction.x as int,
        a.direction.y as int,
        (u - a.field_of_view as int / 2) % (FULL_TURN as int),
    );
    (a.coordinates.x + spec_fx_mul(dir.0, dist), a.coordinates.y + spec_fx_mul(dir.1, dist))
}

/// Whether the draw `(u, dist)` is admissible for the agent and lands on
/// the grid: the angle offset within the field of view, the distance
/// within the perception range.
pub open spec fn spec_sample_in_grid(a: Ant, env: Environment, u: int, dist: int) -> bool {
    &&& 0 <= u < a.field_of_view
    &&& 0 <= dist <= a.max_perception_distance
    &&& 0 <= spec_sample_point(a, u, dist).0 < env.size * FX_ONE
    &&& 0 <= spec_sample_point(a, u, dist).1 < env.size * FX_ONE
}

/// The cell the draw `(u, dist)` resolves to.
pub open spec fn spec_sample_cell(a: Ant, env: Environment, u: int, dist: int) -> Cell {
    env.spec_cell(
        spec_sample_point(a, u, dist).0 / (FX_ONE as int),
        spec_sample_point(a, u, dist).1 / (FX_ONE as int),
    )
}

/// `c` is reachable by some admissible perception draw: it lies under a
/// point at most `max_perception_distance` away, in a direction within
/// half the field of view of the heading. The agent's own cell is the
/// zero-distance draw, so the boundary fallback satisfies this too.
pub open spec fn spec_sample_visible(c: Cell, a: Ant, env: Environment) -> bool {
    exists|u: int, dist: int|
        spec_sample_in_grid(a, env, u, dist) && c == #[trigger] spec_sample_cell(a, env, u, dist)
}

/// `FX_ONE` for true, zero for false: a boolean as a fixed-point feature.
pub open spec fn spec_flag(b: bool) -> int {
    if b {
        FX_ONE as int
    } else {
        0
    }
}

/// The unit direction from the agent towards a cell's centre point.
pub open spec fn spec_dir_to_cell(a: Ant, c: Cell) -> (int, int) {
    spec_norm_dir(
        c.coordinates@[0] * FX_ONE - a.coordinates.x,
        c.coordinates@[1] * FX_ONE - a.coordinates.y,
    )
}

/// Feature `u` of one sampled cell, for `u` in `0..7`: nest flag,
/// traversable flag, food amount, food pheromone, nest pheromone, and the
/// two components of the direction to the cell.
pub open spec fn spec_cell_feature(a: Ant, c: Cell, u: int) -> int {
    if u == 0 {
        spec_flag(c.is_nest)
    } else if u == 1 {
        spec_flag(c.is_traversable)
    } else if u == 2 {
        c.food_amount as int
    } else if u == 3 {
        c.food_pheromone_concentration as int
    } else if u == 4 {
        c.nest_pheromone_concentration as int
    } else if u == 5 {
        spec_dir_to_cell(a, c).0
    } else {
        spec_dir_to_cell(a, c).1
    }
}

/// The whole observation vector: the agent's own mode and heading, then
/// seven features per sampled cell.
pub open spec fn spec_features(a: Ant, cells: Seq<Cell>) -> Seq<i64> {
    Seq::new(
        (3 + 7 * cells.len()) as nat,
        |t: int|
            (if t == 0 {
                spec_flag(a.has_food)
            } else if t == 1 {
                a.direction.x as int
            } else if t == 2 {
                a.direction.y as int
            } else {
                spec_cell_feature(a, cells[(t - 3) / 7], (t - 3) % 7)
            }) as i64,
    )
}

/// The point an agent at `a`'s position proposes when advancing one step
/// along heading `h`.
pub open spec fn spec_move_target(a: Ant, h: Vec2) -> (int, int) {
    (
        a.coordinates.x + spec_fx_mul(h.x as int, a.velocity as int),
        a.coordinates.y + spec_fx_mul(h.y as int, a.velocity as int),
    )
}

/// Whether the proposal along `h` is rejected: it leaves the grid or lands
/// on a non-traversable cell.
pub open spec fn spec_target_blocked(a: Ant, h: Vec2, env: Environment) -> bool {
    let t = spec_move_target(a, h);
    !(0 <= t.0 < env.size * FX_ONE && 0 <= t.1 < env.size * FX_ONE && env.spec_cell(
        t.0 / (FX_ONE as int),
        t.1 / (FX_ONE as int),
    ).is_traversable)
}

/// Whether `next` is `prev` turned by some angle.
pub open spec fn spec_rotated_from(next: Vec2, prev: Vec2) -> bool {
    exists|ang: int|
        0 <= ang < FULL_TURN && (next.x as int, next.y as int) == #[trigger] spec_rotate(
            prev.x as int,
            prev.y as int,
            ang,
        )
}

/// The witness of a wholly failed move: `MOVE_RETRY_LIMIT` headings tried
/// in order, starting from the incoming one, every proposal rejected, and
/// each successor heading one random rotation of its predecessor.
pub open spec fn spec_blocked_chain(hs: Seq<Vec2>, a: Ant, final_dir: Vec2, env: Environment) -> bool {
    &&& hs.len() == MOVE_RETRY_LIMIT + 1
    &&& hs[0] == a.direction
    &&& hs[MOVE_RETRY_LIMIT as int] == final_dir
    &&& forall|t: int| 0 <= t < MOVE_RETRY_LIMIT ==> spec_target_blocked(a, #[trigger] hs[t], env)
    &&& forall|t: int| 0 <= t < MOVE_RETRY_LIMIT ==> spec_rotated_from(#[trigger] hs[t + 1], hs[t])
}

/// The forage-and-deposit relation of one tick, read at the agent's
/// post-move cell `(i, j)`: harvest when the cell has food and the agent
/// carries none, deliver when it is nest and the agent carries, deposit
/// the pheromone of the resulting mode, and touch nothing else.
pub open spec fn spec_tick_effect(
    pre_a: Ant,
    post_a: Ant,
    pre_e: Environment,
    post_e: Environment,
) -> bool {
    let i = post_a.grid_location@[0] as int;
    let j = post_a.grid_location@[1] as int;
    let pre = pre_e.spec_cell(i, j);
    let harvested = pre.food_amount > 0 && !pre_a.has_food;
    let carrying = pre_a.has_food || harvested;
    let delivered = pre.is_nest && carrying;
    &&& post_e.wf()
    &&& post_e.size == pre_e.size
    &&& post_e.diffusion_rate == pre_e.diffusion_rate
    &&& post_e.grid@.len() == pre_e.grid@.len()
    &&& post_a.wf(post_e.size as int)
    &&& same_params(post_a, pre_a)
    &&& post_a.has_food == (carrying && !delivered)
    &&& post_e.spec_cell(i, j).food_amount == (if harvested {
        spec_harvest(pre.food_amount as int)
    } else {
        pre.food_amount as int
    })
    &&& post_e.spec_cell(i, j).food_pheromone_concentration == (if post_a.has_food {
        spec_deposit(pre.food_pheromone_concentration as int)
    } else {
        pre.food_pheromone_concentration as int
    })
    &&& post_e.spec_cell(i, j).nest_pheromone_concentration == (if !post_a.has_food {
        spec_deposit(pre.nest_pheromone_concentration as int)
    } else {
        pre.nest_pheromone_concentration as int
    })
    &&& post_e.spec_cell(i, j).is_nest == pre.is_nest
    &&& post_e.spec_cell(i, j).is_traversable == pre.is_traversable
    &&& post_e.spec_cell(i, j).visited == pre.visited
    &&& (delivered ==> post_e.food_returned_to_nest == (
    if pre_e.food_returned_to_nest + HARVEST_QUANTUM <= i64::MAX {
        pre_e.food_returned_to_nest + HARVEST_QUANTUM
    } else {
        pre_e.food_returned_to_nest as int
    }))
    &&& (!delivered ==> post_e.food_returned_to_nest == pre_e.food_returned_to_nest)
    &&& forall|k: int|
        0 <= k < pre_e.grid@.len() && k != i * pre_e.size + j ==> post_e.grid@[k]
            == pre_e.grid@[k]
}

/// The reward one tick earns: the harvest bonus, the delivery bonus, or
/// both, read at the agent's post-move cell.
pub open spec fn spec_tick_reward(pre_a: Ant, post_a: Ant, pre_e: Environment) -> int {
    let i = post_a.grid_location@[0] as int;
    let j = post_a.grid_location@[1] as int;
    let pre = pre_e.spec_cell(i, j);
    let harvested = pre.food_amount > 0 && !pre_a.has_food;
    let carrying = pre_a.has_food || harvested;
    let delivered = pre.is_nest && carrying;
    (if harvested {
        HARVEST_REWARD as int
    } else {
        0
    }) + (if delivered {
        DELIVERY_REWARD as int
    } else {
        0
    })
}

impl Ant {
    /// The agent's structural invariant against an arena of edge
    /// `env_size`: the heading lies in the unit box, the position lies on
    /// the grid, and the derived cell is the floor of the position.
    pub open spec fn wf(self, env_size: int) -> bool {
        &&& -FX_ONE <= self.direction.x <= FX_ONE
        &&& -FX_ONE <= self.direction.y <= FX_ONE
        &&& 0 <= self.coordinates.x < env_size * FX_ONE
        &&& 0 <= self.coordinates.y < env_size * FX_ONE
        &&& self.grid_location@[0] == self.coordinates.x / FX_ONE
        &&& self.grid_location@[1] == self.coordinates.y / FX_ONE
        &&& self.grid_location@[0] < env_size
        &&& self.grid_location@[1] < env_size
        &&& 0 <= self.velocity <= FX_ONE
        &&& 0 < self.max_perception_distance <= 1_000 * FX_ONE
        &&& 0 < self.field_of_view <= FULL_TURN
        &&& 1 <= self.num_samples <= 1_000
    }

    /// A fresh agent at the fixed start cell with a random initial
    /// heading, seeking food.
    pub fn new(rng: &mut Rng) -> (r: Ant)
        ensures
            r.coordinates == (Vec2 { x: FX_ONE, y: FX_ONE }),
            r.velocity == ANT_VELOCITY,
            r.max_perception_distance == ANT_MAX_PERCEPTION,
            r.field_of_view == ANT_FIELD_OF_VIEW,
            r.grid_location@[0] == 1,
            r.grid_location@[1] == 1,
            !r.has_food,
            r.num_samples == ANT_NUM_SAMPLES,
            forall|es: int| es >= 3 ==> r.wf(es),
            ({
                let t = crate::rng::spec_mix64(crate::rng::spec_rng_next_state(old(rng).state))
                    % (FULL_TURN as u64);
                r.direction.x == crate::trig::spec_fx_cos(t as int) && r.direction.y
                    == crate::trig::spec_fx_sin(t as int)
            }),
            final(rng).state == crate::rng::spec_rng_next_state(old(rng).state),
    {
        let direction = random_unit_vector(rng);
        let r = Ant {
            coordinates: Vec2 { x: FX_ONE, y: FX_ONE },
            direction,
            velocity: ANT_VELOCITY,
            max_perception_distance: ANT_MAX_PERCEPTION,
            field_of_view: ANT_FIELD_OF_VIEW,
            grid_location: [1, 1],
            has_food: false,
            num_samples: ANT_NUM_SAMPLES,
        };
        proof {
            assert forall|es: int| es >= 3 implies r.wf(es) by {
                assert(es * FX_ONE >= 3 * FX_ONE) by (nonlinear_arith)
                    requires
                        es >= 3,
                ;
            }
        }
        r
    }

    /// Tries up to `MOVE_RETRY_LIMIT` times to advance one step along the
    /// heading; a blocked or out-of-grid target turns the agent a random
    /// full-circle amount instead. When every attempt fails the agent
    /// stays put.
    #[verifier::rlimit(30)]
    pub fn update_position(&mut self, environment: &Environment, rng: &mut Rng)
        requires
            environment.wf(),
            old(self).wf(environment.size as int),
        ensures
            final(self).wf(environment.size as int),
            same_params(*final(self), *old(self)),
            final(self).has_food == old(self).has_food,
            ({
                // Either the agent committed exactly one step along the
                // heading in force at the successful proposal (which is the
                // final heading: no rotation follows a commit) ...
                &&& final(self).coordinates.x == old(self).coordinates.x + spec_fx_mul(
                    final(self).direction.x as int,
                    old(self).velocity as int,
                )
                &&& final(self).coordinates.y == old(self).coordinates.y + spec_fx_mul(
                    final(self).direction.y as int,
                    old(self).velocity as int,
                )
                &&& environment.spec_cell(
                    final(self).grid_location@[0] as int,
                    final(self).grid_location@[1] as int,
                ).is_traversable
            }) || ({
                // ... or it stayed put after every one of its
                // MOVE_RETRY_LIMIT proposals was rejected, one random
                // rotation per rejection.
                &&& final(self).coordinates == old(self).coordinates
                &&& final(self).grid_location == old(self).grid_location
                &&& exists|hs: Seq<Vec2>|
                    spec_blocked_chain(hs, *old(self), final(self).direction, *environment)
            }),
            // The first attempt is deterministic: a free first target means
            // the agent commits it with its incoming heading.
            !spec_target_blocked(*old(self), old(self).direction, *environment)
                ==> final(self).direction == old(self).direction,
    {
        proof {
            assert((environment.size as int) * FX_ONE <= 1_000_000_000) by (nonlinear_arith)
                requires
                    environment.size as int <= 1_000,
            ;
        }
        let mut attempts: usize = 0;
        let mut moved = false;
        let ghost mut hs: Seq<Vec2> = seq![old(self).direction];
        while attempts < MOVE_RETRY_LIMIT && !moved
            invariant
                environment.wf(),
                (environment.size as int) * FX_ONE <= 1_000_000_000,
                self.wf(environment.size as int),
                same_params(*self, *old(self)),
                self.has_food == old(self).has_food,
                attempts <= MOVE_RETRY_LIMIT,
                !moved ==> self.coordinates == old(self).coordinates && self.grid_location
                    == old(self).grid_location,
                !moved ==> hs.len() == attempts + 1 && hs[0] == old(self).direction && hs[
                    attempts as int] == self.direction,
                !moved ==> forall|t: int|
                    0 <= t < attempts ==> spec_target_blocked(
                        *old(self),
                        #[trigger] hs[t],
                        *environment,
                    ),
                !moved ==> forall|t: int|
                    0 <= t < attempts ==> spec_rotated_from(#[trigger] hs[t + 1], hs[t]),
                moved ==> environment.spec_cell(
                    self.grid_location@[0] as int,
                    self.grid_location@[1] as int,
                ).is_traversable,
                moved ==> self.coordinates.x == old(self).coordinates.x + spec_fx_mul(
                    self.direction.x as int,
                    old(self).velocity as int,
                ) && self.coordinates.y == old(self).coordinates.y + spec_fx_mul(
                    self.direction.y as int,
                    old(self).velocity as int,
                ),
                moved ==> (spec_target_blocked(*old(self), old(self).direction, *environment)
                    || self.direction == old(self).direction),
            decreases MOVE_RETRY_LIMIT - attempts,
        {
            proof {
                assert(-FX_ONE <= spec_fx_mul(self.direction.x as int, self.velocity as int)
                    <= FX_ONE && -FX_ONE <= spec_fx_mul(
                    self.direction.y as int,
                    self.velocity as int,
                ) <= FX_ONE) by (nonlinear_arith)
                    requires
                        -FX_ONE <= self.direction.x as int <= FX_ONE,
                        -FX_ONE <= self.direction.y as int <= FX_ONE,
                        0 <= self.velocity as int <= FX_ONE,
                        FX_ONE as int == 1_000_000,
                ;
            }
            let dx = fx_mul(self.direction.x, self.velocity);
            let dy = fx_mul(self.direction.y, self.velocity);
            let nx = self.coordinates.x + dx;
            let ny = self.coordinates.y + dy;
            proof {
                assert(spec_move_target(*old(self), self.direction) == (nx as int, ny as int));
            }
            let mut landed = false;
            match environment.get_cell_from_point(Vec2 { x: nx, y: ny }) {
                Ok(cell) => {
                    if cell.is_traversable {
                        proof {
                            assert(0 <= (nx as int) / (FX_ONE as int) && (nx as int) / (
                            FX_ONE as int) < environment.size as int && 0 <= (ny as int) / (
                            FX_ONE as int) && (ny as int) / (FX_ONE as int)
                                < environment.size as int) by (nonlinear_arith)
                                requires
                                    0 <= nx as int,
                                    0 <= ny as int,
                                    (nx as int) < (environment.size as int) * (FX_ONE as int),
                                    (ny as int) < (environment.size as int) * (FX_ONE as int),
                                    FX_ONE as int == 1_000_000,
                            ;
                        }
                        self.coordinates = Vec2 { x: nx, y: ny };
                        let gi = (nx / FX_ONE) as usize;
                        let gj = (ny / FX_ONE) as usize;
                        self.grid_location = [gi, gj];
                        moved = true;
                        landed = true;
                    }
                },
                Err(_) => {},
            }
            if !landed {
                proof {
                    assert(spec_target_blocked(*old(self), self.direction, *environment));
                }
                let ghost previous = self.direction;
                let ghost pre_rotation_state = rng.state;
                self.direction = random_rotation(rng, self.direction, FULL_TURN);
                proof {
                    let u = (crate::rng::spec_mix64(
                        crate::rng::spec_rng_next_state(pre_rotation_state),
                    ) % (FULL_TURN as u64)) as int;
                    let ang = (u - FULL_TURN as int / 2) % (FULL_TURN as int);
                    assert(0 <= ang < FULL_TURN);
                    assert((self.direction.x as int, self.direction.y as int) == spec_rotate(
                        previous.x as int,
                        previous.y as int,
                        ang,
                    ));
                    assert(spec_rotated_from(self.direction, previous));
                    hs = hs.push(self.direction);
                }
            }
            attempts += 1;
        }
        proof {
            if !moved {
                assert(spec_blocked_chain(
                    hs,
                    *old(self),
                    self.direction,
                    *environment,
                ));
            }
        }
    }

    /// Samples `num_samples` cells: each draw turns the heading by a random
    /// angle within the field of view, walks a random distance up to the
    /// perception range, and resolves the point. A draw that leaves the
    /// grid is redrawn a bounded number of times; if every redraw misses,
    /// the agent's own cell stands in, so the pass always terminates with
    /// exactly `num_samples` observations.
    pub fn perceive_surroundings(&self, environment: &Environment, rng: &mut Rng) -> (r: Vec<
        Cell,
    >)
        requires
            environment.wf(),
            self.wf(environment.size as int),
        ensures
            r@.len() == self.num_samples,
            forall|k: int| 0 <= k < r@.len() ==> cell_in_env(#[trigger] r@[k], *environment),
            forall|k: int|
                0 <= k < r@.len() ==> spec_sample_visible(#[trigger] r@[k], *self, *environment),
    {
        proof {
            assert((environment.size as int) * FX_ONE <= 1_000_000_000) by (nonlinear_arith)
                requires
                    environment.size as int <= 1_000,
            ;
        }
        let mut cells: Vec<Cell> = Vec::new();
        let mut s: usize = 0;
        while s < self.num_samples
            invariant
                environment.wf(),
                (environment.size as int) * FX_ONE <= 1_000_000_000,
                self.wf(environment.size as int),
                s <= self.num_samples,
                cells@.len() == s,
                forall|k: int| 0 <= k < s ==> cell_in_env(#[trigger] cells@[k], *environment),
                forall|k: int|
                    0 <= k < s ==> spec_sample_visible(
                        #[trigger] cells@[k],
                        *self,
                        *environment,
                    ),
            decreases self.num_samples - s,
        {
            let mut found = false;
            let mut t: usize = 0;
            while t < PERCEPTION_RETRY_LIMIT && !found
                invariant
                    environment.wf(),
                    (environment.size as int) * FX_ONE <= 1_000_000_000,
                    self.wf(environment.size as int),
                    s < self.num_samples,
                    t <= PERCEPTION_RETRY_LIMIT,
                    cells@.len() == if found {
                        s + 1
                    } else {
                        s as int
                    },
                    forall|k: int|
                        0 <= k < cells@.len() ==> cell_in_env(
                            #[trigger] cells@[k],
                            *environment,
                        ),
                    forall|k: int|
                        0 <= k < cells@.len() ==> spec_sample_visible(
                            #[trigger] cells@[k],
                            *self,
                            *environment,
                        ),
                decreases PERCEPTION_RETRY_LIMIT - t,
            {
                let ghost pre_draw_state = rng.state;
                let sample_direction = random_rotation(rng, self.direction, self.field_of_view);
                let ghost u_draw = (crate::rng::spec_mix64(rng.state) % (
                self.field_of_view as u64)) as int;
                let distance = rng.next_below((self.max_perception_distance + 1) as u64) as i64;
                proof {
                    assert(-1_000_000_000 <= spec_fx_mul(
                        sample_direction.x as int,
                        distance as int,
                    ) <= 1_000_000_000 && -1_000_000_000 <= spec_fx_mul(
                        sample_direction.y as int,
                        distance as int,
                    ) <= 1_000_000_000) by (nonlinear_arith)
                        requires
                            -FX_ONE <= sample_direction.x as int <= FX_ONE,
                            -FX_ONE <= sample_direction.y as int <= FX_ONE,
                            0 <= distance as int <= 1_000 * FX_ONE,
                            FX_ONE as int == 1_000_000,
                    ;
                }
                let ox = fx_mul(sample_direction.x, distance);
                let oy = fx_mul(sample_direction.y, distance);
                let px = self.coordinates.x + ox;
                let py = self.coordinates.y + oy;
                match environment.get_cell_from_point(Vec2 { x: px, y: py }) {
                    Ok(cell) => {
                        proof {
                            assert(0 <= (px as int) / (FX_ONE as int) && (px as int) / (
                            FX_ONE as int) < environment.size as int && 0 <= (py as int) / (
                            FX_ONE as int) && (py as int) / (FX_ONE as int)
                                < environment.size as int) by (nonlinear_arith)
                                requires
                                    0 <= px as int,
                                    0 <= py as int,
                                    (px as int) < (environment.size as int) * (FX_ONE as int),
                                    (py as int) < (environment.size as int) * (FX_ONE as int),
                                    FX_ONE as int == 1_000_000,
                            ;
                            assert(cell_in_env(cell, *environment));
                            assert(spec_sample_point(*self, u_draw, distance as int) == (
                            px as int,
                            py as int,
                            ));
                            assert(spec_sample_in_grid(*self, *environment, u_draw,
                                distance as int));
                            assert(cell == spec_sample_cell(*self, *environment, u_draw,
                                distance as int));
                            assert(spec_sample_visible(cell, *self, *environment));
                        }
                        cells.push(cell);
                        found = true;
                    },
                    Err(_) => {},
                }
                t += 1;
            }
            if !found {
                // Deterministic fallback near boundaries: observe the cell
                // the agent stands on.
                let own = environment.cell_at(self.grid_location[0], self.grid_location[1]);
                proof {
                    assert(cell_in_env(own, *environment));
                    // The own cell is the zero-distance draw.
                    let dir0 = spec_rotate(
                        self.direction.x as int,
                        self.direction.y as int,
                        (0 - self.field_of_view as int / 2) % (FULL_TURN as int),
                    );
                    assert(dir0.0 * 0 == 0 && dir0.1 * 0 == 0) by (nonlinear_arith);
                    assert(spec_fx_mul(dir0.0, 0) == 0 && spec_fx_mul(dir0.1, 0) == 0);
                    assert(spec_sample_point(*self, 0, 0) == (
                    self.coordinates.x as int,
                    self.coordinates.y as int,
                    ));
                    assert(spec_sample_in_grid(*self, *environment, 0, 0));
                    assert(own == spec_sample_cell(*self, *environment, 0, 0));
                    assert(spec_sample_visible(own, *self, *environment));
                }
                cells.push(own);
            }
            s += 1;
        }
        cells
    }

    /// Assembles the observation vector for the given sampled cells:
    /// `[carrying, heading.x, heading.y]`, then seven features per cell.
    pub fn feature_vector_from(&self, cells: &Vec<Cell>) -> (r: Vec<i64>)
        requires
            -FX_ONE <= self.direction.x <= FX_ONE,
            -FX_ONE <= self.direction.y <= FX_ONE,
            0 <= self.coordinates.x <= 1_000_000_000,
            0 <= self.coordinates.y <= 1_000_000_000,
            forall|k: int| 0 <= k < cells@.len() ==> cell_sane(#[trigger] cells@[k]),
        ensures
            r@ == spec_features(*self, cells@),
            r@.len() == 3 + 7 * cells@.len(),
            activations_bounded(r@),
            forall|t: int| 0 <= t < r@.len() ==> -FX_ONE <= #[trigger] r@[t] <= FX_ONE,
    {
        let mut out: Vec<i64> = Vec::new();
        out.push(if self.has_food {
            FX_ONE
        } else {
            0
        });
        out.push(self.direction.x);
        out.push(self.direction.y);
        let n = cells.len();
        let mut k: usize = 0;
        while k < n
            invariant
                -FX_ONE <= self.direction.x <= FX_ONE,
                -FX_ONE <= self.direction.y <= FX_ONE,
                0 <= self.coordinates.x <= 1_000_000_000,
                0 <= self.coordinates.y <= 1_000_000_000,
                forall|t: int| 0 <= t < cells@.len() ==> cell_sane(#[trigger] cells@[t]),
                n == cells@.len(),
                n <= usize::MAX,
                k <= n,
                out@.len() == 3 + 7 * k,
                activations_bounded(out@),
                forall|t: int| 0 <= t < out@.len() ==> -FX_ONE <= #[trigger] out@[t] <= FX_ONE,
                forall|t: int|
                    0 <= t < out@.len() ==> #[trigger] out@[t] == spec_features(
                        *self,
                        cells@,
                    )[t],
            decreases n - k,
        {
            let cell = cells[k];
            proof {
                assert((cell.coordinates@[0] as int) * FX_ONE <= 1_000_000_000_000
                    && (cell.coordinates@[1] as int) * FX_ONE <= 1_000_000_000_000)
                    by (nonlinear_arith)
                    requires
                        cell.coordinates@[0] as int <= 1_000,
                        cell.coordinates@[1] as int <= 1_000,
                ;
            }
            let cell_point = cell.get_continuous_location();
            let dir_to_cell = get_direction_from_coords(self.coordinates, cell_point);
            proof {
                lemma_block_index(k as int);
            }
            out.push(if cell.is_nest {
                FX_ONE
            } else {
                0
            });
            out.push(if cell.is_traversable {
                FX_ONE
            } else {
                0
            });
            out.push(cell.food_amount);
            out.push(cell.food_pheromone_concentration);
            out.push(cell.nest_pheromone_concentration);
            out.push(dir_to_cell.x);
            out.push(dir_to_cell.y);
            k += 1;
        }
        proof {
            assert(out@ =~= spec_features(*self, cells@));
        }
        out
    }

    /// One full observation: a perception pass followed by feature
    /// assembly. The result always has length `3 + 7 * num_samples` and
    /// every entry is a bounded fixed-point value.
    pub fn get_feature_vector(&self, environment: &Environment, rng: &mut Rng) -> (r: Vec<i64>)
        requires
            environment.wf(),
            self.wf(environment.size as int),
        ensures
            r@.len() == 3 + 7 * self.num_samples,
            activations_bounded(r@),
            forall|t: int| 0 <= t < r@.len() ==> -FX_ONE <= #[trigger] r@[t] <= FX_ONE,
            exists|cells: Seq<Cell>|
                {
                    &&& cells.len() == self.num_samples
                    &&& (forall|k: int|
                        0 <= k < cells.len() ==> cell_in_env(#[trigger] cells[k], *environment))
                    &&& (forall|k: int|
                        0 <= k < cells.len() ==> spec_sample_visible(
                            #[trigger] cells[k],
                            *self,
                            *environment,
                        ))
                    &&& r@ == spec_features(*self, cells)
                },
    {
        let cells = self.perceive_surroundings(environment, rng);
        proof {
            assert((environment.size as int) * FX_ONE <= 1_000_000_000) by (nonlinear_arith)
                requires
                    environment.size as int <= 1_000,
            ;
            assert forall|k: int| 0 <= k < cells@.len() implies cell_sane(
                #[trigger] cells@[k],
            ) by {
                let (i, j) = choose|i: int, j: int|
                    0 <= i < environment.size && 0 <= j < environment.size && cells@[k]
                        == #[trigger] environment.spec_cell(i, j);
                assert(cell_wf(environment.spec_cell(i, j), i, j));
            }
        }
        let r = self.feature_vector_from(&cells);
        proof {
            assert(cells@.len() == self.num_samples && (forall|k: int|
                0 <= k < cells@.len() ==> cell_in_env(#[trigger] cells@[k], *environment)) && (
            forall|k: int|
                0 <= k < cells@.len() ==> spec_sample_visible(
                    #[trigger] cells@[k],
                    *self,
                    *environment,
                )) && r@ == spec_features(*self, cells@));
        }
        r
    }

    /// One decision: forward the observation through the policy network
    /// and turn the heading by the network's first output, read as an
    /// angle in micro-turns.
    pub fn update_direction(
        &mut self,
        environment: &Environment,
        decision_network: &MLP,
        rng: &mut Rng,
    )
        requires
            environment.wf(),
            old(self).wf(environment.size as int),
            mlp_wf(decision_network.layers@, 3 + 7 * old(self).num_samples),
            decision_network.layers@.len() > 0,
            decision_network.layers@[decision_network.layers@.len() - 1].b@.len() > 0,
        ensures
            final(self).wf(environment.size as int),
            same_params(*final(self), *old(self)),
            final(self).coordinates == old(self).coordinates,
            final(self).grid_location == old(self).grid_location,
            final(self).has_food == old(self).has_food,
            exists|cells: Seq<Cell>|
                {
                    &&& cells.len() == old(self).num_samples
                    &&& (forall|k: int|
                        0 <= k < cells.len() ==> cell_in_env(#[trigger] cells[k], *environment))
                    &&& ({
                        let outp = crate::neural_network::spec_mlp_forward(
                            decision_network.layers@,
                            spec_features(*old(self), cells),
                            decision_network.layers@.len() as int,
                        );
                        (final(self).direction.x as int, final(self).direction.y as int)
                            == spec_rotate(
                            old(self).direction.x as int,
                            old(self).direction.y as int,
                            (outp[0] as int) % (FULL_TURN as int),
                        )
                    })
                },
    {
        let feature_vector = self.get_feature_vector(environment, rng);
        let network_output = decision_network.forward(&feature_vector);
        proof {
            let layers = decision_network.layers@;
            let n = layers.len() as int;
            assert(network_output@ == crate::neural_network::spec_mlp_forward(
                layers,
                feature_vector@,
                n,
            ));
            assert(network_output@.len() == layers[n - 1].b@.len());
        }
        proof {
            let layers = decision_network.layers@;
            let n = layers.len() as int;
            let inner = crate::neural_network::spec_mlp_forward(layers, feature_vector@, n - 1);
            assert(network_output@ == crate::neural_network::spec_layer_out(layers[n - 1], inner));
            assert(network_output@[0] == crate::neural_network::spec_neuron(
                inner,
                layers[n - 1].w@,
                layers[n - 1].b@,
                0,
            ) as i64);
            assert(0 <= network_output@[0] <= crate::neural_network::ACT_MAX);
        }
        let ghost obs_cells = choose|cells: Seq<Cell>|
            {
                &&& cells.len() == old(self).num_samples
                &&& (forall|k: int|
                    0 <= k < cells.len() ==> cell_in_env(#[trigger] cells[k], *environment))
                &&& (forall|k: int|
                    0 <= k < cells.len() ==> spec_sample_visible(
                        #[trigger] cells[k],
                        *old(self),
                        *environment,
                    ))
                &&& feature_vector@ == spec_features(*old(self), cells)
            };
        let raw = network_output[0];
        let angle = angle_mod(raw);
        self.direction = rotate_array2(self.direction, angle);
        proof {
            assert((self.direction.x as int, self.direction.y as int) == spec_rotate(
                old(self).direction.x as int,
                old(self).direction.y as int,
                angle as int,
            ));
            let outp = crate::neural_network::spec_mlp_forward(
                decision_network.layers@,
                spec_features(*old(self), obs_cells),
                decision_network.layers@.len() as int,
            );
            assert(outp == network_output@);
            assert(angle as int == (outp[0] as int) % (FULL_TURN as int));
        }
    }

    /// The forage step on the agent's current cell: harvest when the cell
    /// has food and the agent carries none; deliver when the cell is nest
    /// and the agent carries; then deposit the pheromone of the resulting
    /// mode. Returns the reward earned.
    fn forage_and_deposit(&mut self, arena: &mut Environment) -> (reward: i64)
        requires
            old(arena).wf(),
            old(self).wf(old(arena).size as int),
        ensures
            final(arena).wf(),
            final(arena).size == old(arena).size,
            final(arena).diffusion_rate == old(arena).diffusion_rate,
            final(arena).grid@.len() == old(arena).grid@.len(),
            final(self).wf(final(arena).size as int),
            same_params(*final(self), *old(self)),
            final(self).coordinates == old(self).coordinates,
            final(self).grid_location == old(self).grid_location,
            final(self).direction == old(self).direction,
            ({
                let i = old(self).grid_location@[0] as int;
                let j = old(self).grid_location@[1] as int;
                let pre = old(arena).spec_cell(i, j);
                let harvested = pre.food_amount > 0 && !old(self).has_food;
                let carrying = old(self).has_food || harvested;
                let delivered = pre.is_nest && carrying;
                &&& final(self).has_food == (carrying && !delivered)
                &&& reward == (if harvested {
                    HARVEST_REWARD as int
                } else {
                    0
                }) + (if delivered {
                    DELIVERY_REWARD as int
                } else {
                    0
                })
                &&& final(arena).spec_cell(i, j).food_amount == (if harvested {
                    spec_harvest(pre.food_amount as int)
                } else {
                    pre.food_amount as int
                })
                &&& final(arena).spec_cell(i, j).food_pheromone_concentration == (if final(self).has_food {
                    spec_deposit(pre.food_pheromone_concentration as int)
                } else {
                    pre.food_pheromone_concentration as int
                })
                &&& final(arena).spec_cell(i, j).nest_pheromone_concentration == (if !final(self).has_food {
                    spec_deposit(pre.nest_pheromone_concentration as int)
                } else {
                    pre.nest_pheromone_concentration as int
                })
                &&& final(arena).spec_cell(i, j).is_nest == pre.is_nest
                &&& final(arena).spec_cell(i, j).is_traversable == pre.is_traversable
                &&& final(arena).spec_cell(i, j).visited == pre.visited
                &&& delivered ==> final(arena).food_returned_to_nest == (if old(arena).food_returned_to_nest + HARVEST_QUANTUM <= i64::MAX {
                    old(arena).food_returned_to_nest + HARVEST_QUANTUM
                } else {
                    old(arena).food_returned_to_nest as int
                })
                &&& !delivered ==> final(arena).food_returned_to_nest == old(arena).food_returned_to_nest
                &&& forall|k: int|
                    0 <= k < old(arena).grid@.len() && k != i * old(arena).size + j
                        ==> final(arena).grid@[k] == old(arena).grid@[k]
            }),
            final(arena).food_returned_to_nest >= old(arena).food_returned_to_nest,
            spec_tick_effect(*old(self), *final(self), *old(arena), *final(arena)),
            reward == spec_tick_reward(*old(self), *final(self), *old(arena)),
            forall|k: int|
                0 <= k < old(arena).grid@.len() ==> (#[trigger] final(arena).grid@[k]).food_amount
                    <= old(arena).grid@[k].food_amount,
    {
        let location = self.grid_location;
        let mut reward: i64 = 0;
        if arena.cell_has_food(location) && !self.has_food {
            arena.take_food(location);
            reward = reward + HARVEST_REWARD;
            self.has_food = true;
        }
        if arena.cell_is_nest(location) && self.has_food {
            reward = reward + DELIVERY_REWARD;
            arena.record_delivery();
            self.has_food = false;
        }
        if self.has_food {
            arena.place_food_pheromone(location);
        } else {
            arena.place_nest_pheromone(location);
        }
        proof {
            let s = arena.size as int;
            let i = old(self).grid_location@[0] as int;
            let j = old(self).grid_location@[1] as int;
            lemma_grid_index(s, i, j);
            assert(cell_wf(old(arena).grid@[i * s + j], i, j));
            assert forall|k: int|
                0 <= k < old(arena).grid@.len() implies (#[trigger] arena.grid@[k]).food_amount
                <= old(arena).grid@[k].food_amount by {
                if k == i * s + j {
                }
            }
        }
        reward
    }

    /// One full tick without an observation: move, forage, deposit, and
    /// decide the next heading.
    pub fn update(
        &mut self,
        environment: &mut Environment,
        decision_network: &MLP,
        rng: &mut Rng,
    )
        requires
            old(environment).wf(),
            old(self).wf(old(environment).size as int),
            mlp_wf(decision_network.layers@, 3 + 7 * old(self).num_samples),
            decision_network.layers@.len() > 0,
            decision_network.layers@[decision_network.layers@.len() - 1].b@.len() > 0,
        ensures
            final(environment).wf(),
            final(environment).size == old(environment).size,
            final(environment).diffusion_rate == old(environment).diffusion_rate,
            final(environment).grid@.len() == old(environment).grid@.len(),
            final(environment).food_returned_to_nest >= old(environment).food_returned_to_nest,
            final(self).wf(final(environment).size as int),
            same_params(*final(self), *old(self)),
            forall|k: int|
                0 <= k < old(environment).grid@.len()
                    ==> #[trigger] final(environment).grid@[k].visited == old(
                    environment,
                ).grid@[k].visited,
            // The first move attempt is deterministic: with a free first
            // target the tick commits exactly one step along the incoming
            // heading before foraging there.
            !spec_target_blocked(*old(self), old(self).direction, *old(environment))
                ==> final(self).coordinates.x == spec_move_target(
                *old(self),
                old(self).direction,
            ).0 && final(self).coordinates.y == spec_move_target(
                *old(self),
                old(self).direction,
            ).1,
            spec_tick_effect(*old(self), *final(self), *old(environment), *final(environment)),
            forall|k: int|
                0 <= k < old(environment).grid@.len()
                    ==> (#[trigger] final(environment).grid@[k]).food_amount <= old(
                    environment,
                ).grid@[k].food_amount,
    {
        self.update_position(environment, rng);
        let _ = self.forage_and_deposit(environment);
        self.update_direction(environment, decision_network, rng);
    }

    /// One full tick: move, forage, deposit, decide, and finally perceive,
    /// returning the observation and the reward earned this tick.
    pub fn step(
        &mut self,
        arena: &mut Environment,
        decision_network: &MLP,
        rng: &mut Rng,
    ) -> (r: (Vec<i64>, i64))
        requires
            old(arena).wf(),
            old(self).wf(old(arena).size as int),
            mlp_wf(decision_network.layers@, 3 + 7 * old(self).num_samples),
            decision_network.layers@.len() > 0,
            decision_network.layers@[decision_network.layers@.len() - 1].b@.len() > 0,
        ensures
            final(arena).wf(),
            final(arena).size == old(arena).size,
            final(arena).diffusion_rate == old(arena).diffusion_rate,
            final(arena).grid@.len() == old(arena).grid@.len(),
            final(arena).food_returned_to_nest >= old(arena).food_returned_to_nest,
            final(self).wf(final(arena).size as int),
            same_params(*final(self), *old(self)),
            // The first move attempt is deterministic: with a free first
            // target the tick commits exactly one step along the incoming
            // heading before foraging there.
            !spec_target_blocked(*old(self), old(self).direction, *old(arena))
                ==> final(self).coordinates.x == spec_move_target(
                *old(self),
                old(self).direction,
            ).0 && final(self).coordinates.y == spec_move_target(
                *old(self),
                old(self).direction,
            ).1,
            r.0@.len() == 3 + 7 * old(self).num_samples,
            activations_bounded(r.0@),
            forall|t: int| 0 <= t < r.0@.len() ==> -FX_ONE <= #[trigger] r.0@[t] <= FX_ONE,
            spec_tick_effect(*old(self), *final(self), *old(arena), *final(arena)),
            r.1 == spec_tick_reward(*old(self), *final(self), *old(arena)),
            forall|k: int|
                0 <= k < old(arena).grid@.len()
                    ==> (#[trigger] final(arena).grid@[k]).food_amount <= old(
                    arena,
                ).grid@[k].food_amount,
            exists|cells: Seq<Cell>|
                {
                    &&& cells.len() == old(self).num_samples
                    &&& (forall|k: int|
                        0 <= k < cells.len() ==> cell_in_env(#[trigger] cells[k], *final(arena)))
                    &&& (forall|k: int|
                        0 <= k < cells.len() ==> spec_sample_visible(
                            #[trigger] cells[k],
                            *final(self),
                            *final(arena),
                        ))
                    &&& r.0@ == spec_features(*final(self), cells)
                },
    {
        self.update_position(arena, rng);
        let reward = self.forage_and_deposit(arena);
        self.update_direction(arena, decision_network, rng);
        let observation = self.get_feature_vector(arena, rng);
        proof {
            let witness = choose|cells: Seq<Cell>|
                {
                    &&& cells.len() == self.num_samples
                    &&& (forall|k: int|
                        0 <= k < cells.len() ==> cell_in_env(#[trigger] cells[k], *arena))
                    &&& (forall|k: int|
                        0 <= k < cells.len() ==> spec_sample_visible(
                            #[trigger] cells[k],
                            *self,
                            *arena,
                        ))
                    &&& observation@ == spec_features(*self, cells)
                };
            assert(witness.len() == old(self).num_samples && (forall|k: int|
                0 <= k < witness.len() ==> cell_in_env(#[trigger] witness[k], *arena)) && (
            forall|k: int|
                0 <= k < witness.len() ==> spec_sample_visible(
                    #[trigger] witness[k],
                    *self,
                    *arena,
                )) && observation@ == spec_features(*self, witness));
        }
        (observation, reward)
    }
}

/// Position `7 * k + u` of the per-cell feature block decodes back to cell
/// `k`, feature `u`.
proof fn lemma_block_index(k: int)
    requires
        k >= 0,
    ensures
        forall|u: int| 0 <= u < 7 ==> (7 * k + u) / 7 == k && #[trigger] ((7 * k + u) % 7) == u,
{
    assert forall|u: int| 0 <= u < 7 implies (7 * k + u) / 7 == k && #[trigger] ((7 * k + u) % 7)
        == u by {
        assert((7 * k + u) / 7 == k && (7 * k + u) % 7 == u) by (nonlinear_arith)
            requires
                k >= 0,
                0 <= u < 7,
        ;
    }
}

} // verus!
