//! The grid model: cells stored row by row in a flat sequence, the count of
//! live neighbours under a bounded edge policy, and the generation rule.
use vstd::prelude::*;
use vstd::arithmetic::div_mod::{lemma_fundamental_div_mod, lemma_fundamental_div_mod_converse};

verus! {

/// State of one cell of the grid.
#[derive(Clone, Copy, Debug, PartialEq, Eq, Structural)]
pub enum Cell {
    Alive,
    Dead,
}

/// A flat sequence of `len` cells describes a `width` x `height` grid.
pub open spec fn grid_shape(len: int, width: int, height: int) -> bool {
    &&& width > 0
    &&& height > 0
    &&& len == width * height
}

/// Whether `(row, col)` lies inside a `width` x `height` grid.
pub open spec fn in_grid(width: int, height: int, row: int, col: int) -> bool {
    0 <= row < height && 0 <= col < width
}

/// Whether `(row, col)` lies inside the grid and holds a live cell.
/// Positions off the grid are dead: there is no wrap-around.
pub open spec fn live_at(cells: Seq<Cell>, width: int, height: int, row: int, col: int) -> bool {
    in_grid(width, height, row, col) && cells[row * width + col] == Cell::Alive
}

/// One for a live cell at `(row, col)`, zero otherwise.
pub open spec fn live_bit(cells: Seq<Cell>, width: int, height: int, row: int, col: int) -> int {
    if live_at(cells, width, height, row, col) {
        1
    } else {
        0
    }
}

/// Number of live cells among the eight neighbours of `(row, col)`.
pub open spec fn live_neighbours(
    cells: Seq<Cell>,
    width: int,
    height: int,
    row: int,
    col: int,
) -> int {
    live_bit(cells, width, height, row - 1, col - 1) + live_bit(cells, width, height, row - 1, col)
        + live_bit(cells, width, height, row - 1, col + 1) + live_bit(
        cells,
        width,
        height,
        row,
        col - 1,
    ) + live_bit(cells, width, height, row, col + 1) + live_bit(
        cells,
        width,
        height,
        row + 1,
        col - 1,
    ) + live_bit(cells, width, height, row + 1, col) + live_bit(
        cells,
        width,
        height,
        row + 1,
        col + 1,
    )
}

/// Number of live neighbours of the cell stored at flat index `index`.
pub open spec fn live_neighbours_of(cells: Seq<Cell>, width: int, height: int, index: int) -> int {
    live_neighbours(cells, width, height, index / width, index % width)
}

/// The rule: a live cell survives with two or three live neighbours, a dead
/// cell comes alive with exactly three; every other cell is dead next.
pub open spec fn next_cell(cell: Cell, n: int) -> Cell {
    match cell {
        Cell::Alive => if n == 2 || n == 3 {
            Cell::Alive
        } else {
            Cell::Dead
        },
        Cell::Dead => if n == 3 {
            Cell::Alive
        } else {
            Cell::Dead
        },
    }
}

/// The next generation of a grid: every cell follows the rule, with counts
/// taken from the current generation only.
pub open spec fn next_gen(cells: Seq<Cell>, width: int, height: int) -> Seq<Cell> {
    Seq::new(
        cells.len(),
        |i: int| next_cell(cells[i], live_neighbours_of(cells, width, height, i)),
    )
}

/// The flat index of an in-grid position is in range and maps back to it.
pub proof fn lemma_index_of(width: int, height: int, row: int, col: int)
    requires
        in_grid(width, height, row, col),
    ensures
        0 <= row * width + col < width * height,
        (row * width + col) / width == row,
        (row * width + col) % width == col,
{
    lemma_fundamental_div_mod_converse(row * width + col, width, row, col);
    assert(0 <= row * width + col < width * height) by (nonlinear_arith)
        requires
            0 <= row < height,
            0 <= col < width,
    ;
}

/// Every flat index of a grid has in-grid coordinates that map back to it.
pub proof fn lemma_coords_of(width: int, height: int, index: int)
    requires
        width > 0,
        0 <= index < width * height,
    ensures
        in_grid(width, height, index / width, index % width),
        index == (index / width) * width + index % width,
{
    lemma_fundamental_div_mod(index, width);
    let q = index / width;
    let r = index % width;
    assert(0 <= q < height) by (nonlinear_arith)
        requires
            index == width * q + r,
            0 <= r < width,
            0 <= index < width * height,
    ;
    assert(index == q * width + r) by (nonlinear_arith)
        requires
            index == width * q + r,
    ;
}

/// Reads whether `(row, col)` holds a live cell; positions off the grid by one
/// step in any direction read as dead.
fn live_at_exec(data: &[Cell], width: u32, height: u32, row: i64, col: i64) -> (b: bool)
    requires
        grid_shape(data@.len() as int, width as int, height as int),
        -1 <= row <= height,
        -1 <= col <= width,
    ensures
        b == live_at(data@, width as int, height as int, row as int, col as int),
{
    if 0 <= row && row < height as i64 && 0 <= col && col < width as i64 {
        proof {
            lemma_index_of(width as int, height as int, row as int, col as int);
        }
        let len = data.len();
        assert(row * width + col < len);
        let i = row as usize * width as usize + col as usize;
        data[i] == Cell::Alive
    } else {
        false
    }
}

/// Counts the live cells in the Moore neighbourhood of the cell at `index`.
/// Row and column are bounds-checked on their own, so a neighbour past the
/// left or right edge never aliases into the adjacent row.
pub fn alive_neighbours(data: &[Cell], index: usize, width: u32, height: u32) -> (n: u32)
    requires
        grid_shape(data@.len() as int, width as int, height as int),
        index < data@.len(),
    ensures
        n == live_neighbours_of(data@, width as int, height as int, index as int),
        n <= 8,
{
    proof {
        lemma_coords_of(width as int, height as int, index as int);
    }
    let row = (index / width as usize) as i64;
    let col = (index % width as usize) as i64;
    let mut n: u32 = 0;
    if live_at_exec(data, width, height, row - 1, col - 1) {
        n += 1;
    }
    if live_at_exec(data, width, height, row - 1, col) {
        n += 1;
    }
    if live_at_exec(data, width, height, row - 1, col + 1) {
        n += 1;
    }
    if live_at_exec(data, width, height, row, col - 1) {
        n += 1;
    }
    if live_at_exec(data, width, height, row, col + 1) {
        n += 1;
    }
    if live_at_exec(data, width, height, row + 1, col - 1) {
        n += 1;
    }
    if live_at_exec(data, width, height, row + 1, col) {
        n += 1;
    }
    if live_at_exec(data, width, height, row + 1, col + 1) {
        n += 1;
    }
    n
}

/// The state that a cell with `n` live neighbours has in the next generation.
pub fn next_state(cell: Cell, n: u32) -> (r: Cell)
    ensures
        r == next_cell(cell, n as int),
{
    match cell {
        Cell::Alive => if n == 2 || n == 3 {
            Cell::Alive
        } else {
            Cell::Dead
        },
        Cell::Dead => if n == 3 {
            Cell::Alive
        } else {
            Cell::Dead
        },
    }
}

/// Writes the next generation of a grid into `out`, whose earlier contents
/// are discarded; the input is only read.
pub fn fill_next_generation(data: &[Cell], width: u32, height: u32, out: &mut Vec<Cell>)
    requires
        grid_shape(data@.len() as int, width as int, height as int),
    ensures
        final(out)@ == next_gen(data@, width as int, height as int),
{
    out.clear();
    let mut i: usize = 0;
    while i < data.len()
        invariant
            grid_shape(data@.len() as int, width as int, height as int),
            i <= data@.len(),
            out@.len() == i,
            forall|j: int|
                0 <= j < i ==> out@[j] == next_gen(data@, width as int, height as int)[j],
        decreases data@.len() - i,
    {
        let n = alive_neighbours(data, i, width, height);
        out.push(next_state(data[i], n));
        i += 1;
    }
    assert(out@ =~= next_gen(data@, width as int, height as int));
}

/// Builds the next generation of a grid as a new buffer; the input is only read.
pub fn next_generation(data: &[Cell], width: u32, height: u32) -> (r: Vec<Cell>)
    requires
        grid_shape(data@.len() as int, width as int, height as int),
    ensures
        r@ == next_gen(data@, width as int, height as int),
{
    let mut next: Vec<Cell> = Vec::with_capacity(data.len());
    fill_next_generation(data, width, height, &mut next);
    next
}

} // verus!
