//! The simulation engine: a grid of fixed size, advanced one generation at a
//! time once enough time has accumulated.
//!
//! Durations are integers in a unit that the caller picks, such as
//! microseconds, and accumulated time is compared with the delay exactly.
use vstd::prelude::*;
use crate::grid::{
    Cell,
    grid_shape,
    in_grid,
    next_gen,
    live_neighbours_of,
    lemma_index_of,
    lemma_coords_of,
    alive_neighbours,
    next_generation,
    fill_next_generation,
};

verus! {

/// Errors reported by the engine.
#[derive(Clone, Copy, Debug, PartialEq, Eq, Structural)]
pub enum GameError {
    /// The grid's length is not `width * height`, or a dimension is zero.
    InvalidDimensions,
    /// A negative delay was given to `step`.
    InvalidDelay,
    /// A position outside the grid was asked for.
    OutOfBounds,
}

/// The engine's state as mathematical values.
pub ghost struct GameView {
    pub cells: Seq<Cell>,
    pub width: nat,
    pub height: nat,
    /// Time accumulated since the last committed generation.
    pub elapsed: nat,
}

impl GameView {
    /// The size invariant: `cells` holds exactly `width * height` cells.
    pub open spec fn wf(self) -> bool {
        grid_shape(self.cells.len() as int, self.width as int, self.height as int)
    }
}

/// The accumulator after adding `dt`; it saturates at the largest `u64`.
pub open spec fn accumulated(elapsed: nat, dt: nat) -> nat {
    if elapsed + dt > u64::MAX {
        u64::MAX as nat
    } else {
        elapsed + dt
    }
}

/// Whether a call of `step` with these arguments commits a generation.
pub open spec fn advances(v: GameView, dt: nat, delay: int) -> bool {
    delay >= 0 && accumulated(v.elapsed, dt) >= delay
}

/// The state after one call of `step`: a negative delay changes nothing;
/// otherwise time accumulates, and once it reaches the delay the grid is
/// replaced by its next generation and the accumulator is reset.
pub open spec fn step_view(v: GameView, dt: nat, delay: int) -> GameView {
    if delay < 0 {
        v
    } else if advances(v, dt, delay) {
        GameView { cells: next_gen(v.cells, v.width as int, v.height as int), elapsed: 0, ..v }
    } else {
        GameView { elapsed: accumulated(v.elapsed, dt), ..v }
    }
}

/// The state after a run of `step` calls with the time increments `dts`, in
/// order, and the same `delay` each time.
pub open spec fn run(v: GameView, dts: Seq<nat>, delay: int) -> GameView
    decreases dts.len(),
{
    if dts.len() == 0 {
        v
    } else {
        step_view(run(v, dts.drop_last(), delay), dts.last(), delay)
    }
}

/// The flat indices below `n` that hold a live cell, in increasing order.
pub open spec fn live_indices_below(cells: Seq<Cell>, n: int) -> Seq<int>
    decreases n,
{
    if n <= 0 {
        Seq::empty()
    } else {
        let below = live_indices_below(cells, n - 1);
        if cells[n - 1] == Cell::Alive {
            below.push(n - 1)
        } else {
            below
        }
    }
}

/// The flat indices of all live cells, in increasing order.
pub open spec fn live_indices(cells: Seq<Cell>) -> Seq<int> {
    live_indices_below(cells, cells.len() as int)
}

/// A game of life on a bounded grid.
///
/// The next generation is written into a second buffer, which then swaps
/// places with the current one, so that no count ever reads a cell of the
/// generation being built.
pub struct Game {
    data: Vec<Cell>,
    spare: Vec<Cell>,
    width: u32,
    height: u32,
    elapsed: u64,
}

impl View for Game {
    type V = GameView;

    closed spec fn view(&self) -> GameView {
        GameView {
            cells: self.data@,
            width: self.width as nat,
            height: self.height as nat,
            elapsed: self.elapsed as nat,
        }
    }
}

impl Game {
    /// Starts a game on `data`, a `width` x `height` grid stored row by row.
    pub fn new(data: Vec<Cell>, width: u32, height: u32) -> (r: Result<Game, GameError>)
        ensures
            grid_shape(data@.len() as int, width as int, height as int) <==> r.is_ok(),
            r matches Ok(g) ==> g@ == (GameView {
                cells: data@,
                width: width as nat,
                height: height as nat,
                elapsed: 0,
            }),
            r matches Err(e) ==> e == GameError::InvalidDimensions,
    {
        proof {
            assert(width * height <= u32::MAX * u32::MAX) by (nonlinear_arith)
                requires
                    width <= u32::MAX,
                    height <= u32::MAX,
            ;
        }
        if width == 0 || height == 0 || data.len() as u64 != width as u64 * height as u64 {
            Err(GameError::InvalidDimensions)
        } else {
            Ok(Game { data, spare: Vec::new(), width, height, elapsed: 0 })
        }
    }

    /// Number of columns.
    pub fn width(&self) -> (r: u32)
        ensures
            r == self@.width,
    {
        self.width
    }

    /// Number of rows.
    pub fn height(&self) -> (r: u32)
        ensures
            r == self@.height,
    {
        self.height
    }

    /// Time accumulated since the last committed generation.
    pub fn elapsed(&self) -> (r: u64)
        ensures
            r == self@.elapsed,
    {
        self.elapsed
    }

    /// The current generation, row by row.
    pub fn current_generation(&self) -> (r: &[Cell])
        ensures
            r@ == self@.cells,
    {
        self.data.as_slice()
    }

    /// The cell at `(row, col)`.
    pub fn cell_at(&self, row: u32, col: u32) -> (r: Result<Cell, GameError>)
        requires
            self@.wf(),
        ensures
            in_grid(self@.width as int, self@.height as int, row as int, col as int) ==> r == Ok::<
                Cell,
                GameError,
            >(self@.cells[row * self@.width + col]),
            !in_grid(self@.width as int, self@.height as int, row as int, col as int) ==> r
                == Err::<Cell, GameError>(GameError::OutOfBounds),
    {
        if row >= self.height || col >= self.width {
            Err(GameError::OutOfBounds)
        } else {
            proof {
                lemma_index_of(self.width as int, self.height as int, row as int, col as int);
            }
            let len = self.data.len();
            assert(row * self.width + col < len);
            Ok(self.data[row as usize * self.width as usize + col as usize])
        }
    }

    /// Number of live neighbours of the cell at flat index `index`.
    pub fn neighbor_count(&self, index: usize) -> (n: u32)
        requires
            self@.wf(),
            index < self@.cells.len(),
        ensures
            n == live_neighbours_of(self@.cells, self@.width as int, self@.height as int, index as int),
            n <= 8,
    {
        alive_neighbours(self.data.as_slice(), index, self.width, self.height)
    }

    /// The next generation of the current grid, as a new buffer; the game is
    /// left as it is.
    pub fn next_generation(&self) -> (r: Vec<Cell>)
        requires
            self@.wf(),
        ensures
            r@ == next_gen(self@.cells, self@.width as int, self@.height as int),
    {
        next_generation(self.data.as_slice(), self.width, self.height)
    }

    /// Adds `dt` to the accumulated time and, once it has reached `delay`,
    /// replaces the grid by its next generation and resets the accumulator.
    /// Returns whether a generation was committed. A negative delay is
    /// refused and leaves the game unchanged.
    pub fn step(&mut self, dt: u64, delay: i64) -> (r: Result<bool, GameError>)
        requires
            old(self)@.wf(),
        ensures
            final(self)@ == step_view(old(self)@, dt as nat, delay as int),
            final(self)@.wf(),
            delay < 0 ==> r == Err::<bool, GameError>(GameError::InvalidDelay),
            delay >= 0 ==> r == Ok::<bool, GameError>(advances(old(self)@, dt as nat, delay as int)),
    {
        if delay < 0 {
            return Err(GameError::InvalidDelay);
        }
        let elapsed = self.elapsed.saturating_add(dt);
        if elapsed < delay as u64 {
            self.elapsed = elapsed;
            return Ok(false);
        }
        fill_next_generation(self.data.as_slice(), self.width, self.height, &mut self.spare);
        std::mem::swap(&mut self.data, &mut self.spare);
        self.elapsed = 0;
        Ok(true)
    }

    /// The positions `(row, col)` of the live cells, in row-major order.
    pub fn live_cells(&self) -> (r: Vec<(u32, u32)>)
        requires
            self@.wf(),
        ensures
            r@.len() == live_indices(self@.cells).len(),
            forall|k: int|
                0 <= k < r@.len() ==> {
                    &&& (r@[k].1 as int) < self@.width
                    &&& r@[k].0 * self@.width + r@[k].1 == live_indices(self@.cells)[k]
                },
    {
        let mut out: Vec<(u32, u32)> = Vec::new();
        let mut i: usize = 0;
        while i < self.data.len()
            invariant
                self@.wf(),
                i <= self@.cells.len(),
                out@.len() == live_indices_below(self@.cells, i as int).len(),
                forall|k: int|
                    0 <= k < out@.len() ==> {
                        &&& (#[trigger] out@[k].1 as int) < self@.width
                        &&& out@[k].0 * self@.width + out@[k].1 == live_indices_below(
                            self@.cells,
                            i as int,
                        )[k]
                    },
            decreases self@.cells.len() - i,
        {
            let ghost below = live_indices_below(self@.cells, i as int);
            if self.data[i] == Cell::Alive {
                proof {
                    lemma_coords_of(self.width as int, self.height as int, i as int);
                }
                let row = (i / self.width as usize) as u32;
                let col = (i % self.width as usize) as u32;
                out.push((row, col));
                assert(live_indices_below(self@.cells, i + 1) == below.push(i as int));
            } else {
                assert(live_indices_below(self@.cells, i + 1) == below);
            }
            i += 1;
        }
        assert(i == self@.cells.len());
        out
    }
}

} // verus!
