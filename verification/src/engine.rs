//! The executable engine: a board of cells with a run/stop flag, proved
//! against the model in [`crate::model`].

use crate::model::{
    idx_of, lemma_grid_index, lemma_index_coords, lemma_neighbors_expanded, live_neighbors,
    next_gen, LifeError, LifeModel,
};
use vstd::prelude::*;

verus! {

/// Whether the simulation is advancing (`Running`) or open to edits
/// (`Stopped`).
#[derive(Clone, Copy, Debug, PartialEq, Eq, Structural)]
pub enum RunState {
    Stopped,
    Running,
}

/// Conway's Game of Life on a finite board whose opposite edges are
/// adjacent.  The grid is stored row-major; its dimensions are fixed at
/// construction.
#[derive(Debug)]
pub struct GameOfLife {
    run_state: RunState,
    board: Vec<bool>,
    width: usize,
    height: usize,
}

impl View for GameOfLife {
    type V = LifeModel;

    closed spec fn view(&self) -> LifeModel {
        LifeModel {
            grid: self.board@,
            width: self.width as int,
            height: self.height as int,
            running: self.run_state is Running,
        }
    }
}

impl GameOfLife {
    /// The representation invariant: the abstract state is well formed.
    /// `new` establishes it and every method preserves it.
    pub open spec fn wf(&self) -> bool {
        self@.wf()
    }

    /// Creates an engine with an all-dead board of the given dimensions, in
    /// the `Stopped` state.  A zero width or height is refused with
    /// `InvalidDimensions`.
    pub fn new(width: usize, height: usize) -> (r: Result<GameOfLife, LifeError>)
        requires
            width * height <= usize::MAX,
        ensures
            r is Ok <==> (0 < width && 0 < height),
            r matches Err(e) ==> e == LifeError::InvalidDimensions,
            r matches Ok(g) ==> {
                &&& g.wf()
                &&& g@.width == width
                &&& g@.height == height
                &&& !g@.running
                &&& g@.grid.len() == width * height
                &&& forall|i: int| 0 <= i < g@.grid.len() ==> !g@.grid[i]
            },
    {
        if width == 0 || height == 0 {
            return Err(LifeError::InvalidDimensions);
        }
        let n = width * height;
        let mut board: Vec<bool> = Vec::new();
        let mut i: usize = 0;
        while i < n
            invariant
                i <= n,
                board@.len() == i,
                forall|j: int| 0 <= j < i as int ==> !board@[j],
            decreases n - i,
        {
            board.push(false);
            i = i + 1;
        }
        Ok(GameOfLife { run_state: RunState::Stopped, board, width, height })
    }

    /// The board's width in cells.
    pub fn width(&self) -> (r: usize)
        ensures
            r == self@.width,
    {
        self.width
    }

    /// The board's height in cells.
    pub fn height(&self) -> (r: usize)
        ensures
            r == self@.height,
    {
        self.height
    }

    /// Whether the simulation is currently running.
    pub fn is_running(&self) -> (r: bool)
        ensures
            r == self@.running,
    {
        match self.run_state {
            RunState::Running => true,
            RunState::Stopped => false,
        }
    }

    /// Starts the simulation.  Idempotent: starting a running engine is a
    /// no-op.  The grid is never touched.
    pub fn start(&mut self)
        ensures
            final(self)@ == old(self)@.after_start(),
    {
        self.run_state = RunState::Running;
    }

    /// Stops the simulation.  Idempotent: stopping a stopped engine is a
    /// no-op.  The grid is never touched.
    pub fn stop(&mut self)
        ensures
            final(self)@ == old(self)@.after_stop(),
    {
        self.run_state = RunState::Stopped;
    }

    /// Flips between `Stopped` and `Running`, as a single start/stop button
    /// does.
    pub fn toggle_run(&mut self)
        ensures
            final(self)@ == old(self)@.after_toggle_run(),
    {
        if self.is_running() {
            self.stop();
        } else {
            self.start();
        }
    }

    /// Reads the cell at column `x`, row `y`; coordinates off the board are
    /// refused with `OutOfBounds`.
    pub fn cell(&self, x: usize, y: usize) -> (r: Result<bool, LifeError>)
        requires
            self.wf(),
        ensures
            r == self@.cell_check(x as int, y as int),
            r is Ok <==> (x < self@.width && y < self@.height),
            r matches Ok(b) ==> b == self@.cell(x as int, y as int),
    {
        if x >= self.width || y >= self.height {
            return Err(LifeError::OutOfBounds);
        }
        // a usize holds the board length, so the index arithmetic below cannot overflow
        let _len = self.board.len();
        proof {
            lemma_grid_index(self@.width, self@.height, x as int, y as int);
        }
        Ok(self.board[y * self.width + x])
    }

    /// Flips the cell at `(x, y)`.  Bounds are checked first; while the
    /// simulation is running every edit is refused with `EditWhileRunning`
    /// and the grid stays untouched.
    pub fn toggle_cell(&mut self, x: usize, y: usize) -> (r: Result<(), LifeError>)
        requires
            old(self).wf(),
        ensures
            final(self).wf(),
            r == old(self)@.edit_check(x as int, y as int),
            final(self)@ == old(self)@.after_toggle(x as int, y as int),
            r is Err ==> final(self)@ == old(self)@,
    {
        if x >= self.width || y >= self.height {
            return Err(LifeError::OutOfBounds);
        }
        if self.is_running() {
            return Err(LifeError::EditWhileRunning);
        }
        // a usize holds the board length, so the index arithmetic below cannot overflow
        let _len = self.board.len();
        proof {
            lemma_grid_index(self@.width, self@.height, x as int, y as int);
        }
        let i = y * self.width + x;
        let cur = self.board[i];
        self.board[i] = !cur;
        Ok(())
    }

    /// Sets the cell at `(x, y)` to `value`, under the same guards as
    /// `toggle_cell`.
    pub fn set_cell(&mut self, x: usize, y: usize, value: bool) -> (r: Result<(), LifeError>)
        requires
            old(self).wf(),
        ensures
            final(self).wf(),
            r == old(self)@.edit_check(x as int, y as int),
            final(self)@ == old(self)@.after_set(x as int, y as int, value),
            r is Err ==> final(self)@ == old(self)@,
    {
        if x >= self.width || y >= self.height {
            return Err(LifeError::OutOfBounds);
        }
        if self.is_running() {
            return Err(LifeError::EditWhileRunning);
        }
        // a usize holds the board length, so the index arithmetic below cannot overflow
        let _len = self.board.len();
        proof {
            lemma_grid_index(self@.width, self@.height, x as int, y as int);
        }
        let i = y * self.width + x;
        self.board[i] = value;
        Ok(())
    }

    /// Advances one generation while running; a no-op while stopped.  The
    /// whole next generation is judged against a snapshot of the current
    /// one, so no cell's update can observe an already-updated neighbour.
    pub fn step(&mut self)
        requires
            old(self).wf(),
        ensures
            final(self).wf(),
            final(self)@ == old(self)@.after_step(),
    {
        if !self.is_running() {
            return;
        }
        let ghost g0 = self.board@;
        let ghost w = self@.width;
        let ghost h = self@.height;
        let n = self.board.len();
        let mut next: Vec<bool> = Vec::new();
        let mut i: usize = 0;
        while i < n
            invariant
                self.wf(),
                self.board@ == g0,
                self@.width == w,
                self@.height == h,
                n == g0.len(),
                i <= n,
                next@.len() == i,
                forall|j: int| 0 <= j < i as int ==> next@[j] == next_gen(g0, w, h)[j],
            decreases n - i,
        {
            let count = self.count_live_neighbors(i);
            let cur = self.board[i];
            let next_alive = if cur {
                count == 2 || count == 3
            } else {
                count == 3
            };
            next.push(next_alive);
            i = i + 1;
        }
        self.board = next;
        proof {
            assert(self.board@ =~= next_gen(g0, w, h));
            assert(self@ =~= old(self)@.after_step());
        }
    }

    /// The row-major indices of the eight toroidal neighbours of cell `i`,
    /// in row order from the upper-left one.
    fn get_neighbors(&self, i: usize) -> (r: Vec<usize>)
        requires
            self.wf(),
            i < self@.grid.len(),
        ensures
            r@.len() == 8,
            forall|k: int| 0 <= k < 8 ==> r@[k] < self@.grid.len(),
            ({
                let w = self@.width;
                let h = self@.height;
                let x = (i as int) % w;
                let y = (i as int) / w;
                let xm = if x == 0 {
                    w - 1
                } else {
                    x - 1
                };
                let xp = if x + 1 == w {
                    0
                } else {
                    x + 1
                };
                let ym = if y == 0 {
                    h - 1
                } else {
                    y - 1
                };
                let yp = if y + 1 == h {
                    0
                } else {
                    y + 1
                };
                &&& r@[0] == idx_of(w, xm, ym)
                &&& r@[1] == idx_of(w, x, ym)
                &&& r@[2] == idx_of(w, xp, ym)
                &&& r@[3] == idx_of(w, xm, y)
                &&& r@[4] == idx_of(w, xp, y)
                &&& r@[5] == idx_of(w, xm, yp)
                &&& r@[6] == idx_of(w, x, yp)
                &&& r@[7] == idx_of(w, xp, yp)
            }),
    {
        // a usize holds the board length, so the index arithmetic below cannot overflow
        let _len = self.board.len();
        proof {
            lemma_index_coords(self@.width, self@.height, i as int);
        }
        let x = i % self.width;
        let y = i / self.width;
        let xm = if x == 0 {
            self.width - 1
        } else {
            x - 1
        };
        let xp = if x + 1 == self.width {
            0
        } else {
            x + 1
        };
        let ym = if y == 0 {
            self.height - 1
        } else {
            y - 1
        };
        let yp = if y + 1 == self.height {
            0
        } else {
            y + 1
        };
        proof {
            lemma_grid_index(self@.width, self@.height, xm as int, ym as int);
            lemma_grid_index(self@.width, self@.height, x as int, ym as int);
            lemma_grid_index(self@.width, self@.height, xp as int, ym as int);
            lemma_grid_index(self@.width, self@.height, xm as int, y as int);
            lemma_grid_index(self@.width, self@.height, xp as int, y as int);
            lemma_grid_index(self@.width, self@.height, xm as int, yp as int);
            lemma_grid_index(self@.width, self@.height, x as int, yp as int);
            lemma_grid_index(self@.width, self@.height, xp as int, yp as int);
        }
        let w = self.width;
        let mut r: Vec<usize> = Vec::new();
        r.push(ym * w + xm);
        r.push(ym * w + x);
        r.push(ym * w + xp);
        r.push(y * w + xm);
        r.push(y * w + xp);
        r.push(yp * w + xm);
        r.push(yp * w + x);
        r.push(yp * w + xp);
        r
    }

    /// Counts the live cells among the eight toroidal neighbours of cell
    /// `i`.
    fn count_live_neighbors(&self, i: usize) -> (n: u8)
        requires
            self.wf(),
            i < self@.grid.len(),
        ensures
            n as int == live_neighbors(
                self@.grid,
                self@.width,
                self@.height,
                (i as int) % self@.width,
                (i as int) / self@.width,
            ),
    {
        proof {
            lemma_index_coords(self@.width, self@.height, i as int);
            lemma_neighbors_expanded(
                self@.grid,
                self@.width,
                self@.height,
                (i as int) % self@.width,
                (i as int) / self@.width,
            );
        }
        let ns = self.get_neighbors(i);
        let mut n: u8 = 0;
        if self.board[ns[0]] {
            n = n + 1;
        }
        if self.board[ns[1]] {
            n = n + 1;
        }
        if self.board[ns[2]] {
            n = n + 1;
        }
        if self.board[ns[3]] {
            n = n + 1;
        }
        if self.board[ns[4]] {
            n = n + 1;
        }
        if self.board[ns[5]] {
            n = n + 1;
        }
        if self.board[ns[6]] {
            n = n + 1;
        }
        if self.board[ns[7]] {
            n = n + 1;
        }
        n
    }
}

} // verus!
