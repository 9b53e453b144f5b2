//! Proved properties that relate several operations of the engine, stated
//! over the abstract states of [`crate::model`].  Every executable method of
//! [`crate::engine::GameOfLife`] ensures that its result is exactly the
//! corresponding transition of the model, so each law carries over to the
//! engine itself.

use crate::model::{
    alive, lemma_grid_index, lemma_index_coords, lemma_neighbors_expanded, lemma_wrap_near,
    live_neighbors, neighbor_alive, next_cell, next_gen, LifeError, LifeModel,
};
use vstd::prelude::*;

verus! {

/// In-bounds edits are refused exactly while the engine runs: after a
/// `start`, toggling or setting any cell on the board answers
/// `EditWhileRunning` and changes nothing; after a `stop`, the same edit is
/// allowed.
pub proof fn lemma_edit_guard(m: LifeModel, x: int, y: int, v: bool)
    requires
        0 <= x < m.width,
        0 <= y < m.height,
    ensures
        m.after_start().edit_check(x, y) == Err::<(), LifeError>(LifeError::EditWhileRunning),
        m.after_start().after_toggle(x, y) == m.after_start(),
        m.after_start().after_set(x, y, v) == m.after_start(),
        m.after_stop().edit_check(x, y) == Ok::<(), LifeError>(()),
{
}

/// A state the step rule leaves unchanged stays unchanged over any number
/// of steps.
pub proof fn lemma_step_fixed_point(m: LifeModel, n: nat)
    requires
        m.after_step() == m,
    ensures
        m.after_steps(n) == m,
    decreases n,
{
    if n > 0 {
        lemma_step_fixed_point(m, (n - 1) as nat);
    }
}

/// While stopped, stepping any number of times leaves the whole state — the
/// grid in particular — unchanged.
pub proof fn lemma_step_noop_while_stopped(m: LifeModel, n: nat)
    requires
        !m.running,
    ensures
        m.after_step() == m,
        m.after_steps(n) == m,
{
    lemma_step_fixed_point(m, n);
}

/// While stopped, toggling a cell twice restores the original state, and
/// setting a cell to a value twice is the same as setting it once.
pub proof fn lemma_toggle_pairing(m: LifeModel, x: int, y: int, v: bool)
    requires
        m.wf(),
        !m.running,
        0 <= x < m.width,
        0 <= y < m.height,
    ensures
        m.after_toggle(x, y).after_toggle(x, y) == m,
        m.after_set(x, y, v).after_set(x, y, v) == m.after_set(x, y, v),
{
    lemma_grid_index(m.width, m.height, x, y);
    assert(m.after_toggle(x, y).after_toggle(x, y).grid =~= m.grid);
    assert(m.after_toggle(x, y).after_toggle(x, y) =~= m);
    assert(m.after_set(x, y, v).after_set(x, y, v).grid =~= m.after_set(x, y, v).grid);
    assert(m.after_set(x, y, v).after_set(x, y, v) =~= m.after_set(x, y, v));
}

/// Repeating `start` or `stop` is the same as doing it once, a `start`
/// followed by a `stop` is a `stop` alone, and two `toggle_run`s cancel:
/// the run transitions never touch the grid.
pub proof fn lemma_run_state_toggling(m: LifeModel)
    ensures
        m.after_start().after_start() == m.after_start(),
        m.after_stop().after_stop() == m.after_stop(),
        m.after_start().after_stop() == m.after_stop(),
        m.after_start().after_stop().grid == m.grid,
        !m.after_start().after_stop().running,
        m.after_toggle_run().after_toggle_run() == m,
{
    assert(m.after_toggle_run().after_toggle_run() =~= m);
}

/// The corner cell's up-left, left and up neighbours wrap to the far
/// corner, the far column and the far row: the board has no edges.
pub proof fn lemma_corner_neighbors_wrap(g: Seq<bool>, w: int, h: int)
    requires
        0 < w,
        0 < h,
    ensures
        neighbor_alive(g, w, h, 0, 0, -1, -1) == alive(g, w, w - 1, h - 1),
        neighbor_alive(g, w, h, 0, 0, -1, 0) == alive(g, w, w - 1, 0),
        neighbor_alive(g, w, h, 0, 0, 0, -1) == alive(g, w, 0, h - 1),
{
    lemma_wrap_near(0, w);
    lemma_wrap_near(0, h);
}

/// Whether `(x, y)` belongs to the 2x2 block whose upper-left cell is
/// `(px, py)`.
pub open spec fn block_cell(px: int, py: int, x: int, y: int) -> bool {
    (x == px || x == px + 1) && (y == py || y == py + 1)
}

/// A `w` by `h` grid whose only live cells form the 2x2 block at `(px, py)`.
pub open spec fn block_grid(w: int, h: int, px: int, py: int) -> Seq<bool> {
    Seq::new((w * h) as nat, |i: int| block_cell(px, py, i % w, i / w))
}

/// One cell of the step rule applied to a block that sits away from the
/// board's edges: every cell keeps its value.
proof fn lemma_block_cell_next(g: Seq<bool>, w: int, h: int, px: int, py: int, x: int, y: int)
    requires
        1 <= px,
        px + 2 < w,
        1 <= py,
        py + 2 < h,
        g == block_grid(w, h, px, py),
        0 <= x < w,
        0 <= y < h,
    ensures
        next_cell(alive(g, w, x, y), live_neighbors(g, w, h, x, y)) == alive(g, w, x, y),
{
    lemma_neighbors_expanded(g, w, h, x, y);
    let xm = if x == 0 {
        w - 1
    } else {
        x - 1
    };
    let xp = if x + 1 == w {
        0
    } else {
        x + 1
    };
    let ym = if y == 0 {
        h - 1
    } else {
        y - 1
    };
    let yp = if y + 1 == h {
        0
    } else {
        y + 1
    };
    lemma_grid_index(w, h, x, y);
    lemma_grid_index(w, h, xm, ym);
    lemma_grid_index(w, h, x, ym);
    lemma_grid_index(w, h, xp, ym);
    lemma_grid_index(w, h, xm, y);
    lemma_grid_index(w, h, xp, y);
    lemma_grid_index(w, h, xm, yp);
    lemma_grid_index(w, h, x, yp);
    lemma_grid_index(w, h, xp, yp);
}

/// A 2x2 block away from the board's edges is a still life: a step changes
/// nothing, and therefore neither does any number of steps.
pub proof fn lemma_block_still_life(m: LifeModel, px: int, py: int, n: nat)
    requires
        m.wf(),
        1 <= px,
        px + 2 < m.width,
        1 <= py,
        py + 2 < m.height,
        m.grid == block_grid(m.width, m.height, px, py),
    ensures
        m.after_step() == m,
        m.after_steps(n) == m,
{
    let g = m.grid;
    let w = m.width;
    let h = m.height;
    assert forall|i: int| 0 <= i < g.len() implies #[trigger] next_gen(g, w, h)[i] == g[i] by {
        lemma_index_coords(w, h, i);
        lemma_block_cell_next(g, w, h, px, py, i % w, i / w);
    }
    assert(next_gen(g, w, h) =~= g);
    assert(m.after_step() =~= m);
    lemma_step_fixed_point(m, n);
}

/// Whether `(x, y)` belongs to the horizontal 3-cell line centred at
/// `(cx, cy)`.
pub open spec fn blinker_h_cell(cx: int, cy: int, x: int, y: int) -> bool {
    y == cy && (x == cx - 1 || x == cx || x == cx + 1)
}

/// Whether `(x, y)` belongs to the vertical 3-cell line centred at
/// `(cx, cy)`.
pub open spec fn blinker_v_cell(cx: int, cy: int, x: int, y: int) -> bool {
    x == cx && (y == cy - 1 || y == cy || y == cy + 1)
}

/// A `w` by `h` grid whose only live cells form the horizontal line at
/// `(cx, cy)`.
pub open spec fn blinker_h_grid(w: int, h: int, cx: int, cy: int) -> Seq<bool> {
    Seq::new((w * h) as nat, |i: int| blinker_h_cell(cx, cy, i % w, i / w))
}

/// A `w` by `h` grid whose only live cells form the vertical line at
/// `(cx, cy)`.
pub open spec fn blinker_v_grid(w: int, h: int, cx: int, cy: int) -> Seq<bool> {
    Seq::new((w * h) as nat, |i: int| blinker_v_cell(cx, cy, i % w, i / w))
}

/// One cell of the step rule applied to the horizontal line away from the
/// board's edges: the cell takes its value in the vertical line.
proof fn lemma_blinker_h_cell_next(g: Seq<bool>, w: int, h: int, cx: int, cy: int, x: int, y: int)
    requires
        2 <= cx,
        cx + 2 < w,
        2 <= cy,
        cy + 2 < h,
        g == blinker_h_grid(w, h, cx, cy),
        0 <= x < w,
        0 <= y < h,
    ensures
        next_cell(alive(g, w, x, y), live_neighbors(g, w, h, x, y)) == blinker_v_cell(cx, cy, x, y),
{
    lemma_neighbors_expanded(g, w, h, x, y);
    let xm = if x == 0 {
        w - 1
    } else {
        x - 1
    };
    let xp = if x + 1 == w {
        0
    } else {
        x + 1
    };
    let ym = if y == 0 {
        h - 1
    } else {
        y - 1
    };
    let yp = if y + 1 == h {
        0
    } else {
        y + 1
    };
    lemma_grid_index(w, h, x, y);
    lemma_grid_index(w, h, xm, ym);
    lemma_grid_index(w, h, x, ym);
    lemma_grid_index(w, h, xp, ym);
    lemma_grid_index(w, h, xm, y);
    lemma_grid_index(w, h, xp, y);
    lemma_grid_index(w, h, xm, yp);
    lemma_grid_index(w, h, x, yp);
    lemma_grid_index(w, h, xp, yp);
}

/// One cell of the step rule applied to the vertical line away from the
/// board's edges: the cell takes its value in the horizontal line.
proof fn lemma_blinker_v_cell_next(g: Seq<bool>, w: int, h: int, cx: int, cy: int, x: int, y: int)
    requires
        2 <= cx,
        cx + 2 < w,
        2 <= cy,
        cy + 2 < h,
        g == blinker_v_grid(w, h, cx, cy),
        0 <= x < w,
        0 <= y < h,
    ensures
        next_cell(alive(g, w, x, y), live_neighbors(g, w, h, x, y)) == blinker_h_cell(cx, cy, x, y),
{
    lemma_neighbors_expanded(g, w, h, x, y);
    let xm = if x == 0 {
        w - 1
    } else {
        x - 1
    };
    let xp = if x + 1 == w {
        0
    } else {
        x + 1
    };
    let ym = if y == 0 {
        h - 1
    } else {
        y - 1
    };
    let yp = if y + 1 == h {
        0
    } else {
        y + 1
    };
    lemma_grid_index(w, h, x, y);
    lemma_grid_index(w, h, xm, ym);
    lemma_grid_index(w, h, x, ym);
    lemma_grid_index(w, h, xp, ym);
    lemma_grid_index(w, h, xm, y);
    lemma_grid_index(w, h, xp, y);
    lemma_grid_index(w, h, xm, yp);
    lemma_grid_index(w, h, x, yp);
    lemma_grid_index(w, h, xp, yp);
}

/// A 3-cell line away from the board's edges oscillates with period two on
/// a running engine: one step turns the horizontal line into the vertical
/// one, and a second step turns it back.
pub proof fn lemma_blinker_oscillates(m: LifeModel, cx: int, cy: int)
    requires
        m.wf(),
        m.running,
        2 <= cx,
        cx + 2 < m.width,
        2 <= cy,
        cy + 2 < m.height,
        m.grid == blinker_h_grid(m.width, m.height, cx, cy),
    ensures
        m.after_step().grid == blinker_v_grid(m.width, m.height, cx, cy),
        m.after_step().after_step() == m,
        m.after_steps(2) == m,
{
    let w = m.width;
    let h = m.height;
    let g = m.grid;
    let gv = blinker_v_grid(w, h, cx, cy);
    assert forall|i: int| 0 <= i < g.len() implies #[trigger] next_gen(g, w, h)[i] == gv[i] by {
        lemma_index_coords(w, h, i);
        lemma_blinker_h_cell_next(g, w, h, cx, cy, i % w, i / w);
    }
    assert(next_gen(g, w, h) =~= gv);
    assert(m.after_step().grid == gv);
    let mid = m.after_step();
    assert forall|i: int| 0 <= i < gv.len() implies #[trigger] next_gen(gv, w, h)[i] == g[i] by {
        lemma_index_coords(w, h, i);
        lemma_blinker_v_cell_next(gv, w, h, cx, cy, i % w, i / w);
    }
    assert(next_gen(gv, w, h) =~= g);
    assert(mid.after_step() =~= m);
    assert(m.after_steps(2) == m.after_steps(1).after_step());
    assert(m.after_steps(1) == m.after_steps(0).after_step());
    assert(m.after_steps(0) == m);
}

} // verus!
