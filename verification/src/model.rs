//! The mathematical model of the game: the grid as a sequence of cells, the
//! toroidal neighbour relation, the step rule, and the state transitions of
//! the engine.  The executable engine is specified and proved against the
//! definitions here.

use vstd::arithmetic::div_mod::{
    lemma_fundamental_div_mod, lemma_fundamental_div_mod_converse,
    lemma_mod_division_less_than_divisor, lemma_mod_multiples_vanish, lemma_mod_self_0,
    lemma_multiply_divide_lt, lemma_small_mod,
};
use vstd::arithmetic::mul::{lemma_mul_inequality, lemma_mul_is_commutative};
use vstd::prelude::*;

verus! {

/// The refusals the engine can answer with.
#[derive(Clone, Copy, Debug, PartialEq, Eq, Structural)]
pub enum LifeError {
    /// A zero width or height at construction.
    InvalidDimensions,
    /// A coordinate outside `[0, width) x [0, height)`.
    OutOfBounds,
    /// A cell edit attempted while the simulation is running.
    EditWhileRunning,
}

/// Row-major index of the cell in column `x` of row `y` on a board `w` cells
/// wide.
pub open spec fn idx_of(w: int, x: int, y: int) -> int {
    y * w + x
}

/// Toroidal wrap of a shifted coordinate: the remainder of `v` by `m`.  In
/// spec arithmetic `%` is Euclidean, so the result lies in `[0, m)` whenever
/// `0 < m`, also for negative `v`.
pub open spec fn wrap(v: int, m: int) -> int {
    v % m
}

/// Whether the cell in column `x` of row `y` of the row-major grid `g` is
/// alive.
pub open spec fn alive(g: Seq<bool>, w: int, x: int, y: int) -> bool {
    g[idx_of(w, x, y)]
}

/// 1 for a live cell, 0 for a dead one.
pub open spec fn as_count(b: bool) -> int {
    if b {
        1
    } else {
        0
    }
}

/// Whether the neighbour of `(x, y)` in direction `(dx, dy)` is alive, both
/// coordinates wrapping around the board's edges.
pub open spec fn neighbor_alive(
    g: Seq<bool>,
    w: int,
    h: int,
    x: int,
    y: int,
    dx: int,
    dy: int,
) -> bool {
    alive(g, w, wrap(x + dx, w), wrap(y + dy, h))
}

/// How many of the eight toroidal neighbours of `(x, y)` are alive, in row
/// order from the upper-left one.
pub open spec fn live_neighbors(g: Seq<bool>, w: int, h: int, x: int, y: int) -> int {
    as_count(neighbor_alive(g, w, h, x, y, -1, -1)) + as_count(
        neighbor_alive(g, w, h, x, y, 0, -1),
    ) + as_count(neighbor_alive(g, w, h, x, y, 1, -1)) + as_count(
        neighbor_alive(g, w, h, x, y, -1, 0),
    ) + as_count(neighbor_alive(g, w, h, x, y, 1, 0)) + as_count(
        neighbor_alive(g, w, h, x, y, -1, 1),
    ) + as_count(neighbor_alive(g, w, h, x, y, 0, 1)) + as_count(
        neighbor_alive(g, w, h, x, y, 1, 1),
    )
}

/// The classic rule for one cell: a live cell survives with two or three
/// live neighbours, a dead cell is born with exactly three.
pub open spec fn next_cell(cur: bool, n: int) -> bool {
    if cur {
        n == 2 || n == 3
    } else {
        n == 3
    }
}

/// The next generation of the whole grid, every cell judged against the same
/// snapshot `g`.
pub open spec fn next_gen(g: Seq<bool>, w: int, h: int) -> Seq<bool> {
    Seq::new((w * h) as nat, |i: int| next_cell(g[i], live_neighbors(g, w, h, i % w, i / w)))
}

/// The abstract state of an engine: grid contents, dimensions, run flag.
#[verifier::ext_equal]
pub struct LifeModel {
    pub grid: Seq<bool>,
    pub width: int,
    pub height: int,
    pub running: bool,
}

impl LifeModel {
    /// Positive dimensions and a grid of exactly `width * height` cells.
    pub open spec fn wf(self) -> bool {
        &&& 0 < self.width
        &&& 0 < self.height
        &&& self.grid.len() == self.width * self.height
    }

    /// Whether `(x, y)` lies on the board.
    pub open spec fn in_bounds(self, x: int, y: int) -> bool {
        0 <= x < self.width && 0 <= y < self.height
    }

    /// Whether the cell at `(x, y)` is alive.
    pub open spec fn cell(self, x: int, y: int) -> bool {
        alive(self.grid, self.width, x, y)
    }

    /// `start` switches the run flag on and touches nothing else.
    pub open spec fn after_start(self) -> LifeModel {
        LifeModel { running: true, ..self }
    }

    /// `stop` switches the run flag off and touches nothing else.
    pub open spec fn after_stop(self) -> LifeModel {
        LifeModel { running: false, ..self }
    }

    /// `toggle_run` flips the run flag.
    pub open spec fn after_toggle_run(self) -> LifeModel {
        LifeModel { running: !self.running, ..self }
    }

    /// One generation: the grid advances only while running.
    pub open spec fn after_step(self) -> LifeModel {
        if self.running {
            LifeModel { grid: next_gen(self.grid, self.width, self.height), ..self }
        } else {
            self
        }
    }

    /// `n` generations in a row.
    pub open spec fn after_steps(self, n: nat) -> LifeModel
        decreases n,
    {
        if n == 0 {
            self
        } else {
            self.after_steps((n - 1) as nat).after_step()
        }
    }

    /// Whether an edit of the cell at `(x, y)` is allowed, and the refusal
    /// otherwise: bounds are checked first, then the run flag.
    pub open spec fn edit_check(self, x: int, y: int) -> Result<(), LifeError> {
        if !self.in_bounds(x, y) {
            Err(LifeError::OutOfBounds)
        } else if self.running {
            Err(LifeError::EditWhileRunning)
        } else {
            Ok(())
        }
    }

    /// The state after `toggle_cell(x, y)`: the cell flipped when the edit
    /// is allowed, everything unchanged when it is refused.
    pub open spec fn after_toggle(self, x: int, y: int) -> LifeModel {
        if self.edit_check(x, y) is Ok {
            LifeModel {
                grid: self.grid.update(idx_of(self.width, x, y), !self.cell(x, y)),
                ..self
            }
        } else {
            self
        }
    }

    /// The state after `set_cell(x, y, v)`: the cell set to `v` when the
    /// edit is allowed, everything unchanged when it is refused.
    pub open spec fn after_set(self, x: int, y: int, v: bool) -> LifeModel {
        if self.edit_check(x, y) is Ok {
            LifeModel { grid: self.grid.update(idx_of(self.width, x, y), v), ..self }
        } else {
            self
        }
    }

    /// The bounds-checked read of the cell at `(x, y)`.
    pub open spec fn cell_check(self, x: int, y: int) -> Result<bool, LifeError> {
        if self.in_bounds(x, y) {
            Ok(self.cell(x, y))
        } else {
            Err(LifeError::OutOfBounds)
        }
    }
}

/// The wrapped coordinate under no shift and under shifts of one step in
/// either direction: wrapping only moves a coordinate that runs off an edge,
/// and moves it to the opposite edge.
pub proof fn lemma_wrap_near(v: int, m: int)
    requires
        0 < m,
        0 <= v < m,
    ensures
        wrap(v, m) == v,
        wrap(v - 1, m) == if v == 0 {
            m - 1
        } else {
            v - 1
        },
        wrap(v + 1, m) == if v + 1 == m {
            0
        } else {
            v + 1
        },
{
    lemma_small_mod(v as nat, m as nat);
    if v == 0 {
        lemma_mod_multiples_vanish(1, -1, m);
        lemma_small_mod((m - 1) as nat, m as nat);
    } else {
        lemma_small_mod((v - 1) as nat, m as nat);
    }
    if v + 1 == m {
        lemma_mod_self_0(m);
    } else {
        lemma_small_mod((v + 1) as nat, m as nat);
    }
}

/// A cell's coordinates determine its row-major index, which stays on the
/// board and decomposes back into the same coordinates.
pub proof fn lemma_grid_index(w: int, h: int, x: int, y: int)
    requires
        0 < w,
        0 < h,
        0 <= x < w,
        0 <= y < h,
    ensures
        0 <= idx_of(w, x, y) < w * h,
        idx_of(w, x, y) % w == x,
        idx_of(w, x, y) / w == y,
{
    lemma_fundamental_div_mod_converse(y * w + x, w, y, x);
    assert(0 <= y * w + x < w * h) by (nonlinear_arith)
        requires
            0 < w,
            0 < h,
            0 <= x < w,
            0 <= y < h,
    ;
}

/// A valid row-major index decomposes into coordinates on the board, and is
/// rebuilt from them.
pub proof fn lemma_index_coords(w: int, h: int, i: int)
    requires
        0 < w,
        0 < h,
        0 <= i < w * h,
    ensures
        0 <= i % w < w,
        0 <= i / w < h,
        idx_of(w, i % w, i / w) == i,
{
    lemma_mod_division_less_than_divisor(i, w);
    lemma_multiply_divide_lt(i, w, h);
    lemma_fundamental_div_mod(i, w);
    lemma_mul_is_commutative(i / w, w);
    if i / w < 0 {
        lemma_mul_inequality(i / w, -1, w);
    }
}

/// The eight neighbour terms of an in-range cell, written as reads of the
/// grid at explicitly wrapped coordinates.
pub proof fn lemma_neighbors_expanded(g: Seq<bool>, w: int, h: int, x: int, y: int)
    requires
        0 < w,
        0 < h,
        0 <= x < w,
        0 <= y < h,
    ensures
        ({
            let xm = if x == 0 {
                w - 1
            } else {
                x - 1
            };
            let xp = if x + 1 == w {
                0
            } else {
                x + 1
            };
            let ym = if y == 0 {
                h - 1
            } else {
                y - 1
            };
            let yp = if y + 1 == h {
                0
            } else {
                y + 1
            };
            live_neighbors(g, w, h, x, y) == as_count(g[idx_of(w, xm, ym)]) + as_count(
                g[idx_of(w, x, ym)],
            ) + as_count(g[idx_of(w, xp, ym)]) + as_count(g[idx_of(w, xm, y)]) + as_count(
                g[idx_of(w, xp, y)],
            ) + as_count(g[idx_of(w, xm, yp)]) + as_count(g[idx_of(w, x, yp)]) + as_count(
                g[idx_of(w, xp, yp)],
            )
        }),
{
    lemma_wrap_near(x, w);
    lemma_wrap_near(y, h);
}

} // verus!
