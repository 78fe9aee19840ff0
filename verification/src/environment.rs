//! The arena: a square grid of cells holding pheromone fields, food,
//! traversability and the nest marker, together with the per-tick decay rule
//! and the food bookkeeping.
//!
//! Concentrations and food amounts are fixed-point values in `[0, FX_ONE]`.
//! The outermost ring of cells is never traversable; a 5x5 block at offset 1
//! from the origin is the nest; a 5x5 block by the far corner is seeded with
//! one unit of food per cell.

use vstd::prelude::*;
use crate::fixed::{FX_ONE, tdiv, lemma_fx_mul_le, spec_fx_mul};
use crate::utils::Vec2;

verus! {

/// Concentrations strictly below this snap to zero before each decay step
/// (the real value 0.01).
pub const PHEROMONE_SNAP_FLOOR: i64 = 10_000;

/// One pheromone deposit (the real value 0.01).
pub const PHEROMONE_DEPOSIT: i64 = 10_000;

/// Above this concentration a deposit saturates to `FX_ONE` (the real
/// value 0.9).
pub const PHEROMONE_SATURATION: i64 = 900_000;

/// The food initially placed on each seeded cell (the real value 1.0).
pub const FOOD_SEED: i64 = 1_000_000;

/// The food removed by one harvest (the real value 0.1).
pub const HARVEST_QUANTUM: i64 = 100_000;

/// The smallest arena in which the border ring, the nest block and the food
/// block all fit without touching.
pub const MIN_ARENA_SIZE: usize = 12;

/// The largest supported arena edge; it keeps every sum and index within
/// the machine integers.
pub const MAX_ARENA_SIZE: usize = 1_000;

/// One grid location's state.
#[derive(Clone, Copy, PartialEq, Debug)]
pub struct Cell {
    pub coordinates: [usize; 2],
    pub nest_pheromone_concentration: i64,
    pub food_pheromone_concentration: i64,
    pub food_amount: i64,
    pub is_nest: bool,
    pub is_traversable: bool,
    pub visited: bool,
}

/// The error of a spatial query that left the grid.
#[derive(Clone, Copy, PartialEq, Eq, Debug)]
pub enum GridError {
    OutOfBounds,
}

/// The grid world: cells in row-major order, the decay factor, and the
/// running count of food brought back to the nest.
pub struct Environment {
    pub diffusion_rate: i64,
    pub size: usize,
    /// Row-major cells: the cell at row `i`, column `j` sits at `i * size + j`.
    pub grid: Vec<Cell>,
    pub food_returned_to_nest: i64,
}

/// One decay step of a single concentration: values below the snap floor
/// drop to zero, everything else is scaled by the diffusion rate.
pub open spec fn spec_decay(c: int, d: int) -> int {
    if c < PHEROMONE_SNAP_FLOOR as int {
        0
    } else {
        tdiv(c * d, FX_ONE as int)
    }
}

/// One deposit on a single concentration: saturating at `FX_ONE`, additive
/// below the saturation threshold.
pub open spec fn spec_deposit(c: int) -> int {
    if c > PHEROMONE_SATURATION as int {
        FX_ONE as int
    } else {
        c + PHEROMONE_DEPOSIT as int
    }
}

/// Decay never increases a concentration, and a vanished trail stays gone.
pub proof fn lemma_decay_monotone(c: int, d: int)
    requires
        0 <= c <= FX_ONE as int,
        0 < d < FX_ONE as int,
    ensures
        0 <= spec_decay(c, d) <= c,
{
    if c >= PHEROMONE_SNAP_FLOOR as int {
        lemma_fx_mul_le(c, d);
        assert(spec_decay(c, d) == spec_fx_mul(c, d));
    }
}

/// A deposit never decreases a concentration and never pushes it past
/// `FX_ONE`.
pub proof fn lemma_deposit_saturation(c: int)
    requires
        0 <= c <= FX_ONE as int,
    ensures
        c <= spec_deposit(c) <= FX_ONE as int,
{
}

/// The concentration after `n` decay ticks at rate `d`.
pub open spec fn spec_decay_iter(c: int, d: int, n: nat) -> int
    decreases n,
{
    if n == 0 {
        c
    } else {
        spec_decay(spec_decay_iter(c, d, (n - 1) as nat), d)
    }
}

/// The concentration after `n` deposits on one channel.
pub open spec fn spec_deposit_iter(c: int, n: nat) -> int
    decreases n,
{
    if n == 0 {
        c
    } else {
        spec_deposit(spec_deposit_iter(c, (n - 1) as nat))
    }
}

/// However many ticks pass, decay never increases a concentration: each
/// tick's value is bounded by the one before, all the way back to the
/// start.
pub proof fn lemma_decay_iter_monotone(c: int, d: int, n: nat)
    requires
        0 <= c <= FX_ONE as int,
        0 < d < FX_ONE as int,
    ensures
        0 <= spec_decay_iter(c, d, n) <= c,
        n > 0 ==> spec_decay_iter(c, d, n) <= spec_decay_iter(c, d, (n - 1) as nat),
    decreases n,
{
    if n > 0 {
        lemma_decay_iter_monotone(c, d, (n - 1) as nat);
        lemma_decay_monotone(spec_decay_iter(c, d, (n - 1) as nat), d);
    }
}

/// However many deposits land on one cell and channel, the concentration
/// never exceeds `FX_ONE`.
pub proof fn lemma_deposit_iter_saturation(c: int, n: nat)
    requires
        0 <= c <= FX_ONE as int,
    ensures
        0 <= spec_deposit_iter(c, n) <= FX_ONE as int,
        c <= spec_deposit_iter(c, n),
    decreases n,
{
    if n > 0 {
        lemma_deposit_iter_saturation(c, (n - 1) as nat);
        lemma_deposit_saturation(spec_deposit_iter(c, (n - 1) as nat));
    }
}

/// A cell's scalar fields are in range and its stored coordinates match its
/// position in the grid.
pub open spec fn cell_wf(c: Cell, i: int, j: int) -> bool {
    &&& c.coordinates@[0] == i
    &&& c.coordinates@[1] == j
    &&& 0 <= c.nest_pheromone_concentration <= FX_ONE
    &&& 0 <= c.food_pheromone_concentration <= FX_ONE
    &&& 0 <= c.food_amount <= FX_ONE
}

/// The decay relation between a cell after and before one tick.
pub open spec fn cell_decayed(post: Cell, pre: Cell, d: int) -> bool {
    &&& post.nest_pheromone_concentration == spec_decay(
        pre.nest_pheromone_concentration as int,
        d,
    )
    &&& post.food_pheromone_concentration == spec_decay(
        pre.food_pheromone_concentration as int,
        d,
    )
    &&& post.food_amount == pre.food_amount
    &&& post.is_nest == pre.is_nest
    &&& post.is_traversable == pre.is_traversable
    &&& post.visited == pre.visited
    &&& post.coordinates == pre.coordinates
}

/// The whole-arena decay relation of one tick: every cell's channels
/// snapped and scaled, everything else untouched.
pub open spec fn env_decayed(post: Environment, pre: Environment) -> bool {
    &&& post.size == pre.size
    &&& post.diffusion_rate == pre.diffusion_rate
    &&& post.food_returned_to_nest == pre.food_returned_to_nest
    &&& post.grid@.len() == pre.grid@.len()
    &&& forall|k: int|
        0 <= k < pre.grid@.len() ==> cell_decayed(
            #[trigger] post.grid@[k],
            pre.grid@[k],
            pre.diffusion_rate as int,
        )
}

/// The relation of marking one cell visited: that cell's flag set, every
/// other cell and every other field untouched.
pub open spec fn spec_visited_marked(post: Environment, pre: Environment, i: int, j: int) -> bool {
    &&& post.size == pre.size
    &&& post.diffusion_rate == pre.diffusion_rate
    &&& post.food_returned_to_nest == pre.food_returned_to_nest
    &&& post.grid@.len() == pre.grid@.len()
    &&& post.spec_cell(i, j) == (Cell { visited: true, ..pre.spec_cell(i, j) })
    &&& forall|k: int|
        0 <= k < pre.grid@.len() && k != i * pre.size + j ==> post.grid@[k] == pre.grid@[k]
}

/// The sum of the food on the first `n` cells.
pub open spec fn spec_food_sum(g: Seq<Cell>, n: int) -> int
    decreases n,
{
    if n <= 0 {
        0
    } else {
        spec_food_sum(g, n - 1) + g[n - 1].food_amount
    }
}

/// How many of the first `n` cells are marked visited.
pub open spec fn spec_visited_count(g: Seq<Cell>, n: int) -> int
    decreases n,
{
    if n <= 0 {
        0
    } else {
        spec_visited_count(g, n - 1) + (if g[n - 1].visited {
            1int
        } else {
            0int
        })
    }
}

impl Cell {
    /// A fresh cell: no pheromone, no food, traversable, unvisited.
    pub fn new(coordinates: [usize; 2]) -> (r: Cell)
        ensures
            r.coordinates == coordinates,
            r.nest_pheromone_concentration == 0,
            r.food_pheromone_concentration == 0,
            r.food_amount == 0,
            !r.is_nest,
            r.is_traversable,
            !r.visited,
    {
        Cell {
            coordinates,
            nest_pheromone_concentration: 0,
            food_pheromone_concentration: 0,
            food_amount: 0,
            is_nest: false,
            is_traversable: true,
            visited: false,
        }
    }

    /// Sets the nest channel to full strength.
    pub fn set_nest_pheromone_concentration(&mut self)
        ensures
            *final(self) == (Cell { nest_pheromone_concentration: FX_ONE, ..*old(self) }),
    {
        self.nest_pheromone_concentration = FX_ONE;
    }

    /// Sets the food channel to full strength.
    pub fn set_food_pheromone_concentration(&mut self)
        ensures
            *final(self) == (Cell { food_pheromone_concentration: FX_ONE, ..*old(self) }),
    {
        self.food_pheromone_concentration = FX_ONE;
    }

    /// The cell's position as a continuous point, in micro-units.
    pub fn get_continuous_location(&self) -> (r: Vec2)
        requires
            self.coordinates@[0] <= MAX_ARENA_SIZE,
            self.coordinates@[1] <= MAX_ARENA_SIZE,
        ensures
            r.x == self.coordinates@[0] * FX_ONE,
            r.y == self.coordinates@[1] * FX_ONE,
    {
        let x: i64 = (self.coordinates[0] as i64) * FX_ONE;
        let y: i64 = (self.coordinates[1] as i64) * FX_ONE;
        Vec2 { x, y }
    }

    /// One decay tick on both pheromone channels: snap, then scale.
    fn update(&mut self, diffusion_rate: i64)
        requires
            0 <= old(self).nest_pheromone_concentration <= FX_ONE,
            0 <= old(self).food_pheromone_concentration <= FX_ONE,
            0 < diffusion_rate < FX_ONE,
        ensures
            cell_decayed(*final(self), *old(self), diffusion_rate as int),
            0 <= final(self).nest_pheromone_concentration
                <= old(self).nest_pheromone_concentration,
            0 <= final(self).food_pheromone_concentration
                <= old(self).food_pheromone_concentration,
    {
        proof {
            lemma_decay_monotone(self.nest_pheromone_concentration as int, diffusion_rate as int);
            lemma_decay_monotone(self.food_pheromone_concentration as int, diffusion_rate as int);
        }
        if self.nest_pheromone_concentration < PHEROMONE_SNAP_FLOOR {
            self.nest_pheromone_concentration = 0;
        } else {
            self.nest_pheromone_concentration = (self.nest_pheromone_concentration
                * diffusion_rate) / FX_ONE;
        }
        if self.food_pheromone_concentration < PHEROMONE_SNAP_FLOOR {
            self.food_pheromone_concentration = 0;
        } else {
            self.food_pheromone_concentration = (self.food_pheromone_concentration
                * diffusion_rate) / FX_ONE;
        }
    }
}

impl Environment {
    /// The cell at row `i`, column `j` of the model.
    pub open spec fn spec_cell(self, i: int, j: int) -> Cell
        recommends
            0 <= i < self.size,
            0 <= j < self.size,
    {
        self.grid@[i * self.size + j]
    }

    /// Whether `(i, j)` lies on the outermost ring.
    pub open spec fn is_border(self, i: int, j: int) -> bool {
        i == 0 || j == 0 || i == self.size - 1 || j == self.size - 1
    }

    /// The arena's structural invariant: a full square grid of well-formed
    /// cells whose border ring is never traversable.
    pub open spec fn wf(self) -> bool {
        &&& MIN_ARENA_SIZE <= self.size <= MAX_ARENA_SIZE
        &&& 0 < self.diffusion_rate < FX_ONE
        &&& self.grid@.len() == self.size * self.size
        &&& forall|i: int, j: int|
            0 <= i < self.size && 0 <= j < self.size ==> cell_wf(
                #[trigger] self.grid@[i * self.size + j],
                i,
                j,
            )
        &&& forall|i: int, j: int|
            0 <= i < self.size && 0 <= j < self.size && self.is_border(i, j)
                ==> !(#[trigger] self.grid@[i * self.size + j]).is_traversable
        &&& self.food_returned_to_nest >= 0
    }

    /// Whether a freshly built arena of edge `size` has cell `(i, j)` in its
    /// expected initial state.
    pub open spec fn is_initial_cell(c: Cell, size: int, i: int, j: int) -> bool {
        &&& cell_wf(c, i, j)
        &&& c.is_traversable == !(i == 0 || j == 0 || i == size - 1 || j == size - 1)
        &&& c.is_nest == (1 <= i < 6 && 1 <= j < 6)
        &&& c.food_amount == if size - 6 <= i < size - 1 && size - 6 <= j < size - 1 {
            FOOD_SEED as int
        } else {
            0
        }
        &&& c.nest_pheromone_concentration == 0
        &&& c.food_pheromone_concentration == 0
        &&& !c.visited
    }

    /// The flat index of `(i, j)`, in bounds whenever the coordinates are.
    fn cell_index(&self, i: usize, j: usize) -> (r: usize)
        requires
            self.size <= MAX_ARENA_SIZE,
            i < self.size,
            j < self.size,
        ensures
            r == i * self.size + j,
            r < self.size * self.size,
    {
        proof {
            lemma_grid_index(self.size as int, i as int, j as int);
            assert((self.size as int) * (self.size as int) <= 1_000_000) by (nonlinear_arith)
                requires
                    self.size as int <= 1_000,
            ;
        }
        i * self.size + j
    }

    /// The cell at row `i`, column `j`.
    pub fn cell_at(&self, i: usize, j: usize) -> (r: Cell)
        requires
            self.wf(),
            i < self.size,
            j < self.size,
        ensures
            r == self.spec_cell(i as int, j as int),
    {
        let k = self.cell_index(i, j);
        self.grid[k]
    }

    /// Builds the arena: a `size` x `size` grid with the border ring closed
    /// off, the nest block marked, and the far-corner block seeded with food.
    pub fn new(arena_size: usize, diffusion_rate: i64) -> (r: Environment)
        requires
            MIN_ARENA_SIZE <= arena_size <= MAX_ARENA_SIZE,
            0 < diffusion_rate < FX_ONE,
        ensures
            r.wf(),
            r.size == arena_size,
            r.diffusion_rate == diffusion_rate,
            r.food_returned_to_nest == 0,
            forall|i: int, j: int|
                0 <= i < arena_size && 0 <= j < arena_size ==> Environment::is_initial_cell(
                    #[trigger] r.spec_cell(i, j),
                    arena_size as int,
                    i,
                    j,
                ),
    {
        let mut grid: Vec<Cell> = Vec::new();
        let mut i: usize = 0;
        while i < arena_size
            invariant
                i <= arena_size,
                MIN_ARENA_SIZE <= arena_size <= MAX_ARENA_SIZE,
                grid@.len() == i * arena_size,
                forall|a: int, b: int|
                    0 <= a < i && 0 <= b < arena_size ==> Environment::is_initial_cell(
                        #[trigger] grid@[a * arena_size + b],
                        arena_size as int,
                        a,
                        b,
                    ),
            decreases arena_size - i,
        {
            let mut j: usize = 0;
            while j < arena_size
                invariant
                    i < arena_size,
                    j <= arena_size,
                    MIN_ARENA_SIZE <= arena_size <= MAX_ARENA_SIZE,
                    grid@.len() == i * arena_size + j,
                    forall|a: int, b: int|
                        0 <= a < i && 0 <= b < arena_size ==> Environment::is_initial_cell(
                            #[trigger] grid@[a * arena_size + b],
                            arena_size as int,
                            a,
                            b,
                        ),
                    forall|b: int|
                        0 <= b < j ==> Environment::is_initial_cell(
                            #[trigger] grid@[i as int * arena_size + b],
                            arena_size as int,
                            i as int,
                            b,
                        ),
                decreases arena_size - j,
            {
                let border = i == 0 || j == 0 || i == arena_size - 1 || j == arena_size - 1;
                let nest = 1 <= i && i < 6 && 1 <= j && j < 6;
                let seeded = arena_size - 6 <= i && i < arena_size - 1 && arena_size - 6 <= j && j
                    < arena_size - 1;
                let cell = Cell {
                    coordinates: [i, j],
                    nest_pheromone_concentration: 0,
                    food_pheromone_concentration: 0,
                    food_amount: if seeded {
                        FOOD_SEED
                    } else {
                        0
                    },
                    is_nest: nest,
                    is_traversable: !border,
                    visited: false,
                };
                grid.push(cell);
                proof {
                    lemma_grid_index(arena_size as int, i as int, j as int);
                    assert forall|a: int, b: int|
                        0 <= a < i && 0 <= b < arena_size implies Environment::is_initial_cell(
                        #[trigger] grid@[a * arena_size + b],
                        arena_size as int,
                        a,
                        b,
                    ) by {
                        lemma_grid_row_prefix(arena_size as int, a, b, i as int);
                    }
                    assert forall|b: int|
                        0 <= b < j + 1 implies Environment::is_initial_cell(
                        #[trigger] grid@[i as int * arena_size + b],
                        arena_size as int,
                        i as int,
                        b,
                    ) by {
                    }
                }
                j += 1;
            }
            proof {
                assert((i as int + 1) * arena_size as int == i as int * arena_size as int
                    + arena_size as int) by (nonlinear_arith);
            }
            i += 1;
        }
        proof {
            assert(grid@.len() == arena_size * arena_size);
        }
        let r = Environment { diffusion_rate, size: arena_size, grid, food_returned_to_nest: 0 };
        proof {
            assert forall|i2: int, j2: int|
                0 <= i2 < arena_size && 0 <= j2 < arena_size implies Environment::is_initial_cell(
                #[trigger] r.spec_cell(i2, j2),
                arena_size as int,
                i2,
                j2,
            ) by {
                lemma_grid_index(arena_size as int, i2, j2);
            }
        }
        r
    }

    /// Replaces the cell at `(i, j)`, keeping the grid well formed. The new
    /// cell must be well formed and may not open the border ring.
    fn set_cell(&mut self, i: usize, j: usize, c: Cell)
        requires
            old(self).wf(),
            i < old(self).size,
            j < old(self).size,
            cell_wf(c, i as int, j as int),
            c.is_traversable == old(self).spec_cell(i as int, j as int).is_traversable,
        ensures
            final(self).wf(),
            final(self).size == old(self).size,
            final(self).diffusion_rate == old(self).diffusion_rate,
            final(self).food_returned_to_nest == old(self).food_returned_to_nest,
            final(self).grid@.len() == old(self).grid@.len(),
            final(self).spec_cell(i as int, j as int) == c,
            forall|k: int|
                0 <= k < old(self).grid@.len() && k != i * old(self).size + j
                    ==> final(self).grid@[k] == old(self).grid@[k],
    {
        let k = self.cell_index(i, j);
        self.grid.set(k, c);
        proof {
            let s = self.size as int;
            assert forall|i2: int, j2: int|
                0 <= i2 < s && 0 <= j2 < s implies cell_wf(
                #[trigger] self.grid@[i2 * s + j2],
                i2,
                j2,
            ) && (self.is_border(i2, j2) ==> !self.grid@[i2 * s + j2].is_traversable) by {
                lemma_grid_index(s, i2, j2);
                if i2 * s + j2 == k {
                    lemma_grid_index_injective(s, i2, j2, i as int, j as int);
                }
            }
        }
    }

    /// Adds one deposit to the nest channel of the cell at `index`,
    /// saturating at full strength.
    pub fn place_nest_pheromone(&mut self, index: [usize; 2])
        requires
            old(self).wf(),
            index@[0] < old(self).size,
            index@[1] < old(self).size,
        ensures
            final(self).wf(),
            final(self).size == old(self).size,
            final(self).diffusion_rate == old(self).diffusion_rate,
            final(self).food_returned_to_nest == old(self).food_returned_to_nest,
            final(self).grid@.len() == old(self).grid@.len(),
            ({
                let pre = old(self).spec_cell(index@[0] as int, index@[1] as int);
                final(self).spec_cell(index@[0] as int, index@[1] as int) == (Cell {
                    nest_pheromone_concentration: spec_deposit(
                        pre.nest_pheromone_concentration as int,
                    ) as i64,
                    ..pre
                })
            }),
            forall|k: int|
                0 <= k < old(self).grid@.len() && k != index@[0] * old(self).size + index@[1]
                    ==> final(self).grid@[k] == old(self).grid@[k],
    {
        let i = index[0];
        let j = index[1];
        let mut c = self.cell_at(i, j);
        proof {
            lemma_deposit_saturation(c.nest_pheromone_concentration as int);
        }
        if c.nest_pheromone_concentration > PHEROMONE_SATURATION {
            c.nest_pheromone_concentration = FX_ONE;
        } else {
            c.nest_pheromone_concentration = c.nest_pheromone_concentration + PHEROMONE_DEPOSIT;
        }
        self.set_cell(i, j, c);
    }

    /// Adds one deposit to the food channel of the cell at `index`,
    /// saturating at full strength.
    pub fn place_food_pheromone(&mut self, index: [usize; 2])
        requires
            old(self).wf(),
            index@[0] < old(self).size,
            index@[1] < old(self).size,
        ensures
            final(self).wf(),
            final(self).size == old(self).size,
            final(self).diffusion_rate == old(self).diffusion_rate,
            final(self).food_returned_to_nest == old(self).food_returned_to_nest,
            final(self).grid@.len() == old(self).grid@.len(),
            ({
                let pre = old(self).spec_cell(index@[0] as int, index@[1] as int);
                final(self).spec_cell(index@[0] as int, index@[1] as int) == (Cell {
                    food_pheromone_concentration: spec_deposit(
                        pre.food_pheromone_concentration as int,
                    ) as i64,
                    ..pre
                })
            }),
            forall|k: int|
                0 <= k < old(self).grid@.len() && k != index@[0] * old(self).size + index@[1]
                    ==> final(self).grid@[k] == old(self).grid@[k],
    {
        let i = index[0];
        let j = index[1];
        let mut c = self.cell_at(i, j);
        proof {
            lemma_deposit_saturation(c.food_pheromone_concentration as int);
        }
        if c.food_pheromone_concentration > PHEROMONE_SATURATION {
            c.food_pheromone_concentration = FX_ONE;
        } else {
            c.food_pheromone_concentration = c.food_pheromone_concentration + PHEROMONE_DEPOSIT;
        }
        self.set_cell(i, j, c);
    }

    /// Whether the cell at `index` still holds any food.
    pub fn cell_has_food(&self, index: [usize; 2]) -> (r: bool)
        requires
            self.wf(),
            index@[0] < self.size,
            index@[1] < self.size,
        ensures
            r == (self.spec_cell(index@[0] as int, index@[1] as int).food_amount > 0),
    {
        let cell = self.cell_at(index[0], index[1]);
        cell.food_amount > 0
    }

    /// Whether an agent may occupy the cell at `index`.
    pub fn cell_is_traversable(&self, index: [usize; 2]) -> (r: bool)
        requires
            self.wf(),
            index@[0] < self.size,
            index@[1] < self.size,
        ensures
            r == self.spec_cell(index@[0] as int, index@[1] as int).is_traversable,
    {
        let cell = self.cell_at(index[0], index[1]);
        cell.is_traversable
    }

    /// Whether the cell at `index` belongs to the nest block.
    pub fn cell_is_nest(&self, index: [usize; 2]) -> (r: bool)
        requires
            self.wf(),
            index@[0] < self.size,
            index@[1] < self.size,
        ensures
            r == self.spec_cell(index@[0] as int, index@[1] as int).is_nest,
    {
        let cell = self.cell_at(index[0], index[1]);
        cell.is_nest
    }

    /// Removes one harvest quantum from the cell at `index`; the amount
    /// stops at zero rather than going negative.
    pub fn take_food(&mut self, index: [usize; 2])
        requires
            old(self).wf(),
            index@[0] < old(self).size,
            index@[1] < old(self).size,
        ensures
            final(self).wf(),
            final(self).size == old(self).size,
            final(self).diffusion_rate == old(self).diffusion_rate,
            final(self).food_returned_to_nest == old(self).food_returned_to_nest,
            final(self).grid@.len() == old(self).grid@.len(),
            ({
                let pre = old(self).spec_cell(index@[0] as int, index@[1] as int);
                final(self).spec_cell(index@[0] as int, index@[1] as int) == (Cell {
                    food_amount: spec_harvest(pre.food_amount as int) as i64,
                    ..pre
                })
            }),
            forall|k: int|
                0 <= k < old(self).grid@.len() && k != index@[0] * old(self).size + index@[1]
                    ==> final(self).grid@[k] == old(self).grid@[k],
    {
        let i = index[0];
        let j = index[1];
        let mut c = self.cell_at(i, j);
        if c.food_amount >= HARVEST_QUANTUM {
            c.food_amount = c.food_amount - HARVEST_QUANTUM;
        } else {
            c.food_amount = 0;
        }
        self.set_cell(i, j, c);
    }

    /// Marks the cell at `index` as visited.
    pub fn set_cell_as_visited(&mut self, index: [usize; 2])
        requires
            old(self).wf(),
            index@[0] < old(self).size,
            index@[1] < old(self).size,
        ensures
            final(self).wf(),
            final(self).size == old(self).size,
            final(self).diffusion_rate == old(self).diffusion_rate,
            final(self).food_returned_to_nest == old(self).food_returned_to_nest,
            final(self).grid@.len() == old(self).grid@.len(),
            ({
                let pre = old(self).spec_cell(index@[0] as int, index@[1] as int);
                final(self).spec_cell(index@[0] as int, index@[1] as int) == (Cell {
                    visited: true,
                    ..pre
                })
            }),
            forall|k: int|
                0 <= k < old(self).grid@.len() && k != index@[0] * old(self).size + index@[1]
                    ==> final(self).grid@[k] == old(self).grid@[k],
            spec_visited_marked(*final(self), *old(self), index@[0] as int, index@[1] as int),
    {
        let i = index[0];
        let j = index[1];
        let mut c = self.cell_at(i, j);
        c.visited = true;
        self.set_cell(i, j, c);
    }

    /// Books one delivered harvest on the arena's running counter; the
    /// counter never decreases and sticks at the integer ceiling rather
    /// than wrapping.
    pub fn record_delivery(&mut self)
        requires
            old(self).wf(),
        ensures
            final(self).wf(),
            *final(self) == (Environment {
                food_returned_to_nest: final(self).food_returned_to_nest,
                ..*old(self)
            }),
            final(self).food_returned_to_nest == if old(self).food_returned_to_nest
                + HARVEST_QUANTUM <= i64::MAX {
                old(self).food_returned_to_nest + HARVEST_QUANTUM
            } else {
                old(self).food_returned_to_nest as int
            },
            final(self).food_returned_to_nest >= old(self).food_returned_to_nest,
    {
        if self.food_returned_to_nest <= i64::MAX - HARVEST_QUANTUM {
            self.food_returned_to_nest = self.food_returned_to_nest + HARVEST_QUANTUM;
        }
    }

    /// Resolves a continuous point to the cell under it, or reports that the
    /// point lies outside `[0, size)` in either coordinate.
    pub fn get_cell_from_point(&self, point: Vec2) -> (r: Result<Cell, GridError>)
        requires
            self.wf(),
        ensures
            r is Ok <==> (0 <= point.x && point.x < self.size * FX_ONE && 0 <= point.y && point.y
                < self.size * FX_ONE),
            r is Ok ==> r->Ok_0 == self.spec_cell(
                point.x as int / FX_ONE as int,
                point.y as int / FX_ONE as int,
            ),
            r is Err ==> r->Err_0 == GridError::OutOfBounds,
    {
        if point.x < 0 || point.y < 0 {
            return Err(GridError::OutOfBounds);
        }
        let xi: i64 = point.x / FX_ONE;
        let yi: i64 = point.y / FX_ONE;
        proof {
            assert((point.x as int) / (FX_ONE as int) < self.size as int <==> (point.x as int)
                < self.size as int * FX_ONE as int) by (nonlinear_arith)
                requires
                    point.x as int >= 0,
                    FX_ONE as int == 1_000_000,
                    self.size as int >= 0,
            ;
            assert((point.y as int) / (FX_ONE as int) < self.size as int <==> (point.y as int)
                < self.size as int * FX_ONE as int) by (nonlinear_arith)
                requires
                    point.y as int >= 0,
                    FX_ONE as int == 1_000_000,
                    self.size as int >= 0,
            ;
        }
        if xi >= self.size as i64 || yi >= self.size as i64 {
            return Err(GridError::OutOfBounds);
        }
        Ok(self.cell_at(xi as usize, yi as usize))
    }

    /// The 3x3 neighbourhood centred on `index`, row by row.
    pub fn perceive_surroundings(&self, index: [usize; 2]) -> (r: Vec<Cell>)
        requires
            self.wf(),
            1 <= index@[0],
            index@[0] <= self.size - 2,
            1 <= index@[1],
            index@[1] <= self.size - 2,
        ensures
            r@.len() == 9,
            forall|k: int|
                0 <= k < 9 ==> #[trigger] r@[k] == self.spec_cell(
                    index@[0] + k / 3 - 1,
                    index@[1] + k % 3 - 1,
                ),
    {
        let mut cells: Vec<Cell> = Vec::new();
        let mut k: usize = 0;
        while k < 9
            invariant
                self.wf(),
                1 <= index@[0],
                index@[0] <= self.size - 2,
                1 <= index@[1],
                index@[1] <= self.size - 2,
                k <= 9,
                cells@.len() == k,
                forall|t: int|
                    0 <= t < k ==> #[trigger] cells@[t] == self.spec_cell(
                        index@[0] + t / 3 - 1,
                        index@[1] + t % 3 - 1,
                    ),
            decreases 9 - k,
        {
            let di = k / 3;
            let dj = k % 3;
            let cell = self.cell_at(index[0] + di - 1, index[1] + dj - 1);
            cells.push(cell);
            k += 1;
        }
        cells
    }

    /// The total food left on the grid.
    pub fn total_food_remaining(&self) -> (r: i64)
        requires
            self.wf(),
        ensures
            r == spec_food_sum(self.grid@, self.grid@.len() as int),
            r >= 0,
    {
        let mut total: i64 = 0;
        let mut k: usize = 0;
        let n = self.grid.len();
        proof {
            assert((self.size as int) * (self.size as int) <= 1_000_000) by (nonlinear_arith)
                requires
                    self.size as int <= 1_000,
            ;
        }
        while k < n
            invariant
                self.wf(),
                n == self.grid@.len(),
                n <= 1_000_000,
                k <= n,
                total == spec_food_sum(self.grid@, k as int),
                0 <= total <= k * FX_ONE,
            decreases n - k,
        {
            proof {
                let sz = self.size as int;
                lemma_flat_coords(sz, k as int);
                let i2 = k as int / sz;
                let j2 = k as int % sz;
                assert(cell_wf(self.grid@[i2 * sz + j2], i2, j2));
                assert(i2 * sz + j2 == k as int);
            }
            total = total + self.grid[k].food_amount;
            k += 1;
        }
        total
    }

    /// How many distinct cells have been visited so far.
    pub fn num_cells_visited(&self) -> (r: i32)
        requires
            self.wf(),
        ensures
            r == spec_visited_count(self.grid@, self.grid@.len() as int),
            0 <= r <= self.grid@.len(),
    {
        let mut count: i32 = 0;
        let mut k: usize = 0;
        let n = self.grid.len();
        proof {
            assert((self.size as int) * (self.size as int) <= 1_000_000) by (nonlinear_arith)
                requires
                    self.size as int <= 1_000,
            ;
        }
        while k < n
            invariant
                self.wf(),
                n == self.grid@.len(),
                n <= 1_000_000,
                k <= n,
                count == spec_visited_count(self.grid@, k as int),
                0 <= count <= k,
            decreases n - k,
        {
            if self.grid[k].visited {
                count = count + 1;
            }
            k += 1;
        }
        count
    }

    /// One decay tick: every cell snaps sub-floor concentrations to zero,
    /// then scales both channels by the diffusion rate.
    pub fn update(&mut self)
        requires
            old(self).wf(),
        ensures
            final(self).wf(),
            final(self).size == old(self).size,
            final(self).diffusion_rate == old(self).diffusion_rate,
            final(self).food_returned_to_nest == old(self).food_returned_to_nest,
            final(self).grid@.len() == old(self).grid@.len(),
            forall|k: int|
                0 <= k < old(self).grid@.len() ==> cell_decayed(
                    #[trigger] final(self).grid@[k],
                    old(self).grid@[k],
                    old(self).diffusion_rate as int,
                ),
            env_decayed(*final(self), *old(self)),
    {
        let d = self.diffusion_rate;
        let n = self.grid.len();
        let mut k: usize = 0;
        while k < n
            invariant
                n == self.grid@.len(),
                n == old(self).grid@.len(),
                self.size == old(self).size,
                self.diffusion_rate == old(self).diffusion_rate,
                self.food_returned_to_nest == old(self).food_returned_to_nest,
                d == old(self).diffusion_rate,
                old(self).wf(),
                k <= n,
                forall|t: int|
                    0 <= t < k ==> cell_decayed(
                        #[trigger] self.grid@[t],
                        old(self).grid@[t],
                        d as int,
                    ),
                forall|t: int| k <= t < n ==> #[trigger] self.grid@[t] == old(self).grid@[t],
            decreases n - k,
        {
            proof {
                lemma_flat_coords(old(self).size as int, k as int);
            }
            let mut c = self.grid[k];
            c.update(d);
            self.grid.set(k, c);
            k += 1;
        }
        proof {
            let s = self.size as int;
            assert forall|i2: int, j2: int|
                0 <= i2 < s && 0 <= j2 < s implies cell_wf(
                #[trigger] self.grid@[i2 * s + j2],
                i2,
                j2,
            ) && (self.is_border(i2, j2) ==> !self.grid@[i2 * s + j2].is_traversable) by {
                lemma_grid_index(s, i2, j2);
                let pre = old(self).grid@[i2 * s + j2];
                assert(cell_wf(pre, i2, j2));
                lemma_decay_monotone(pre.nest_pheromone_concentration as int, d as int);
                lemma_decay_monotone(pre.food_pheromone_concentration as int, d as int);
            }
        }
    }
}

/// The coordinates a flat row-major index stands for.
pub proof fn lemma_flat_coords(size: int, k: int)
    requires
        size > 0,
        0 <= k < size * size,
    ensures
        0 <= k / size < size,
        0 <= k % size < size,
        (k / size) * size + k % size == k,
{
    assert(0 <= k / size < size && 0 <= k % size < size && (k / size) * size + k % size == k)
        by (nonlinear_arith)
        requires
            size > 0,
            0 <= k < size * size,
    ;
}

/// The clamped harvest: one quantum leaves the cell, and the amount never
/// goes below zero.
pub open spec fn spec_harvest(c: int) -> int {
    if c >= HARVEST_QUANTUM as int {
        c - HARVEST_QUANTUM as int
    } else {
        0
    }
}

/// A row-major index stays inside the grid.
pub proof fn lemma_grid_index(size: int, i: int, j: int)
    requires
        0 <= i < size,
        0 <= j < size,
    ensures
        0 <= i * size + j,
        i * size + j < size * size,
{
    assert(0 <= i * size + j && i * size + j < size * size) by (nonlinear_arith)
        requires
            0 <= i < size,
            0 <= j < size,
    ;
}

/// Cells of earlier rows come before any cell of the current row.
pub proof fn lemma_grid_row_prefix(size: int, a: int, b: int, i: int)
    requires
        0 <= a < i,
        0 <= b < size,
    ensures
        a * size + b < i * size,
{
    assert(a * size + b < i * size) by (nonlinear_arith)
        requires
            0 <= a < i,
            0 <= b < size,
    ;
}

/// Two row-major indices agree only when their coordinates do.
pub proof fn lemma_grid_index_injective(size: int, i1: int, j1: int, i2: int, j2: int)
    requires
        0 <= i1 < size,
        0 <= j1 < size,
        0 <= i2 < size,
        0 <= j2 < size,
        i1 * size + j1 == i2 * size + j2,
    ensures
        i1 == i2,
        j1 == j2,
{
    assert(i1 == i2 && j1 == j2) by (nonlinear_arith)
        requires
            0 <= i1 < size,
            0 <= j1 < size,
            0 <= i2 < size,
            0 <= j2 < size,
            i1 * size + j1 == i2 * size + j2,
    ;
}

} // verus!
