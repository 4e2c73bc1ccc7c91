//! What holds of the engine across calls and across whole runs.
use vstd::prelude::*;
use crate::grid::{
    Cell,
    grid_shape,
    in_grid,
    live_bit,
    live_neighbours,
    live_neighbours_of,
    next_cell,
    next_gen,
    lemma_index_of,
    lemma_coords_of,
};
use crate::game::{GameView, accumulated, step_view, run};

verus! {

/// The live state of a cell as a `Cell`.
pub open spec fn cell_of(alive: bool) -> Cell {
    if alive {
        Cell::Alive
    } else {
        Cell::Dead
    }
}

/// The `width` x `height` grid whose live cells are the positions that
/// satisfy `alive`.
pub open spec fn drawn(width: int, height: int, alive: spec_fn(int, int) -> bool) -> Seq<Cell> {
    Seq::new((width * height) as nat, |i: int| cell_of(alive(i / width, i % width)))
}

/// One for an in-grid position that satisfies `alive`, zero otherwise.
pub open spec fn drawn_bit(
    width: int,
    height: int,
    alive: spec_fn(int, int) -> bool,
    row: int,
    col: int,
) -> int {
    if in_grid(width, height, row, col) && alive(row, col) {
        1
    } else {
        0
    }
}

/// The neighbour count of `(row, col)` in `drawn(width, height, alive)`,
/// read off the predicate.
pub open spec fn drawn_neighbours(
    width: int,
    height: int,
    alive: spec_fn(int, int) -> bool,
    row: int,
    col: int,
) -> int {
    drawn_bit(width, height, alive, row - 1, col - 1) + drawn_bit(width, height, alive, row - 1, col)
        + drawn_bit(width, height, alive, row - 1, col + 1) + drawn_bit(
        width,
        height,
        alive,
        row,
        col - 1,
    ) + drawn_bit(width, height, alive, row, col + 1) + drawn_bit(
        width,
        height,
        alive,
        row + 1,
        col - 1,
    ) + drawn_bit(width, height, alive, row + 1, col) + drawn_bit(
        width,
        height,
        alive,
        row + 1,
        col + 1,
    )
}

/// A 2x2 block of live cells with its top-left corner at `(row, col)`.
pub open spec fn block(row: int, col: int) -> spec_fn(int, int) -> bool {
    |r: int, c: int| (r == row || r == row + 1) && (c == col || c == col + 1)
}

/// Three live cells in a row, centred on `(row, col)`.
pub open spec fn horizontal_bar(row: int, col: int) -> spec_fn(int, int) -> bool {
    |r: int, c: int| r == row && col - 1 <= c <= col + 1
}

/// Three live cells in a column, centred on `(row, col)`.
pub open spec fn vertical_bar(row: int, col: int) -> spec_fn(int, int) -> bool {
    |r: int, c: int| c == col && row - 1 <= r <= row + 1
}

/// `n` equal time increments `dt`.
pub open spec fn ticks(dt: nat, n: nat) -> Seq<nat> {
    Seq::new(n, |i: int| dt)
}

proof fn lemma_drawn_live_at(
    width: int,
    height: int,
    alive: spec_fn(int, int) -> bool,
    row: int,
    col: int,
)
    requires
        width > 0,
        height > 0,
    ensures
        live_bit(drawn(width, height, alive), width, height, row, col) == drawn_bit(
            width,
            height,
            alive,
            row,
            col,
        ),
{
    if in_grid(width, height, row, col) {
        lemma_index_of(width, height, row, col);
    }
}

proof fn lemma_drawn_neighbours(
    width: int,
    height: int,
    alive: spec_fn(int, int) -> bool,
    row: int,
    col: int,
)
    requires
        width > 0,
        height > 0,
    ensures
        live_neighbours(drawn(width, height, alive), width, height, row, col) == drawn_neighbours(
            width,
            height,
            alive,
            row,
            col,
        ),
{
    lemma_drawn_live_at(width, height, alive, row - 1, col - 1);
    lemma_drawn_live_at(width, height, alive, row - 1, col);
    lemma_drawn_live_at(width, height, alive, row - 1, col + 1);
    lemma_drawn_live_at(width, height, alive, row, col - 1);
    lemma_drawn_live_at(width, height, alive, row, col + 1);
    lemma_drawn_live_at(width, height, alive, row + 1, col - 1);
    lemma_drawn_live_at(width, height, alive, row + 1, col);
    lemma_drawn_live_at(width, height, alive, row + 1, col + 1);
}

/// Where every in-grid cell of the pattern `p` goes to the state that `q`
/// gives it, the next generation of the grid drawn by `p` is the grid drawn
/// by `q`.
proof fn lemma_drawn_next(
    width: int,
    height: int,
    p: spec_fn(int, int) -> bool,
    q: spec_fn(int, int) -> bool,
)
    requires
        width > 0,
        height > 0,
        forall|row: int, col: int|
            in_grid(width, height, row, col) ==> next_cell(
                cell_of(p(row, col)),
                drawn_neighbours(width, height, p, row, col),
            ) == cell_of(q(row, col)),
    ensures
        next_gen(drawn(width, height, p), width, height) == drawn(width, height, q),
{
    let a = drawn(width, height, p);
    assert forall|i: int| 0 <= i < a.len() implies next_gen(a, width, height)[i] == drawn(
        width,
        height,
        q,
    )[i] by {
        lemma_coords_of(width, height, i);
        lemma_drawn_neighbours(width, height, p, i / width, i % width);
    }
    assert(next_gen(a, width, height) =~= drawn(width, height, q));
}

/// The next generation depends on the grid alone: two equal grids have
/// equal next generations.
pub proof fn lemma_next_gen_deterministic(a: Seq<Cell>, b: Seq<Cell>, width: int, height: int)
    requires
        a == b,
    ensures
        next_gen(a, width, height) == next_gen(b, width, height),
        next_gen(a, width, height).len() == a.len(),
{
}

/// The rule cell by cell: a live cell with fewer than two live neighbours
/// dies, with two or three lives on, with more than three dies; a dead cell
/// with exactly three comes alive, with any other count stays dead.
pub proof fn lemma_rule_cases(cells: Seq<Cell>, width: int, height: int, i: int)
    requires
        grid_shape(cells.len() as int, width, height),
        0 <= i < cells.len(),
    ensures
        ({
            let n = live_neighbours_of(cells, width, height, i);
            let next = next_gen(cells, width, height)[i];
            &&& cells[i] == Cell::Alive && n < 2 ==> next == Cell::Dead
            &&& cells[i] == Cell::Alive && (n == 2 || n == 3) ==> next == Cell::Alive
            &&& cells[i] == Cell::Alive && n > 3 ==> next == Cell::Dead
            &&& cells[i] == Cell::Dead && n == 3 ==> next == Cell::Alive
            &&& cells[i] == Cell::Dead && n != 3 ==> next == Cell::Dead
        }),
{
}

/// Every neighbour count lies between zero and eight.
pub proof fn lemma_neighbours_bounded(cells: Seq<Cell>, width: int, height: int, row: int, col: int)
    ensures
        0 <= live_neighbours(cells, width, height, row, col) <= 8,
{
}

/// A corner cell has at most three neighbours: only `(0, 1)`, `(1, 0)` and
/// `(1, 1)` can count for `(0, 0)`.
pub proof fn lemma_corner_neighbours(cells: Seq<Cell>, width: int, height: int)
    requires
        grid_shape(cells.len() as int, width, height),
    ensures
        live_neighbours(cells, width, height, 0, 0) == live_bit(cells, width, height, 0, 1)
            + live_bit(cells, width, height, 1, 0) + live_bit(cells, width, height, 1, 1),
        live_neighbours(cells, width, height, 0, 0) <= 3,
{
}

/// Off-grid positions never count: the only cell of a 1x1 grid has no live
/// neighbours, whatever its state.
pub proof fn lemma_single_cell_grid(cells: Seq<Cell>)
    requires
        cells.len() == 1,
    ensures
        live_neighbours_of(cells, 1, 1, 0) == 0,
{
}

/// A 2x2 block lying inside the grid is a still life.
pub proof fn lemma_block_still(width: int, height: int, row: int, col: int)
    requires
        in_grid(width, height, row, col),
        in_grid(width, height, row + 1, col + 1),
    ensures
        next_gen(drawn(width, height, block(row, col)), width, height) == drawn(
            width,
            height,
            block(row, col),
        ),
{
    let p = block(row, col);
    assert forall|r: int, c: int| in_grid(width, height, r, c) implies next_cell(
        cell_of(p(r, c)),
        drawn_neighbours(width, height, p, r, c),
    ) == cell_of(p(r, c)) by {}
    lemma_drawn_next(width, height, p, p);
}

/// A horizontal bar of three becomes a vertical bar of three about the same
/// centre, and back.
pub proof fn lemma_blinker(width: int, height: int, row: int, col: int)
    requires
        in_grid(width, height, row - 1, col - 1),
        in_grid(width, height, row + 1, col + 1),
    ensures
        next_gen(drawn(width, height, horizontal_bar(row, col)), width, height) == drawn(
            width,
            height,
            vertical_bar(row, col),
        ),
        next_gen(drawn(width, height, vertical_bar(row, col)), width, height) == drawn(
            width,
            height,
            horizontal_bar(row, col),
        ),
{
    let h = horizontal_bar(row, col);
    let v = vertical_bar(row, col);
    assert forall|r: int, c: int| in_grid(width, height, r, c) implies next_cell(
        cell_of(h(r, c)),
        drawn_neighbours(width, height, h, r, c),
    ) == cell_of(v(r, c)) by {}
    lemma_drawn_next(width, height, h, v);
    assert forall|r: int, c: int| in_grid(width, height, r, c) implies next_cell(
        cell_of(v(r, c)),
        drawn_neighbours(width, height, v, r, c),
    ) == cell_of(h(r, c)) by {}
    lemma_drawn_next(width, height, v, h);
}

/// Any run of steps keeps the size invariant and the dimensions.
pub proof fn lemma_run_keeps_shape(v: GameView, dts: Seq<nat>, delay: int)
    requires
        v.wf(),
    ensures
        run(v, dts, delay).wf(),
        run(v, dts, delay).width == v.width,
        run(v, dts, delay).height == v.height,
    decreases dts.len(),
{
    if dts.len() > 0 {
        lemma_run_keeps_shape(v, dts.drop_last(), delay);
    }
}

/// A 2x2 block inside the grid stays as it is over any run of steps with
/// no delay.
pub proof fn lemma_block_survives(v: GameView, dts: Seq<nat>, row: int, col: int)
    requires
        v.wf(),
        in_grid(v.width as int, v.height as int, row, col),
        in_grid(v.width as int, v.height as int, row + 1, col + 1),
        v.cells == drawn(v.width as int, v.height as int, block(row, col)),
    ensures
        run(v, dts, 0).cells == v.cells,
    decreases dts.len(),
{
    if dts.len() > 0 {
        lemma_block_survives(v, dts.drop_last(), row, col);
        lemma_run_keeps_shape(v, dts.drop_last(), 0);
        lemma_block_still(v.width as int, v.height as int, row, col);
    }
}

/// A horizontal bar of three inside the grid oscillates with period two
/// over any run of steps with no delay: horizontal after an even number of
/// steps, vertical after an odd one.
pub proof fn lemma_blinker_oscillates(v: GameView, dts: Seq<nat>, row: int, col: int)
    requires
        v.wf(),
        in_grid(v.width as int, v.height as int, row - 1, col - 1),
        in_grid(v.width as int, v.height as int, row + 1, col + 1),
        v.cells == drawn(v.width as int, v.height as int, horizontal_bar(row, col)),
    ensures
        run(v, dts, 0).cells == if dts.len() % 2 == 0 {
            drawn(v.width as int, v.height as int, horizontal_bar(row, col))
        } else {
            drawn(v.width as int, v.height as int, vertical_bar(row, col))
        },
    decreases dts.len(),
{
    if dts.len() > 0 {
        lemma_blinker_oscillates(v, dts.drop_last(), row, col);
        lemma_run_keeps_shape(v, dts.drop_last(), 0);
        lemma_blinker(v.width as int, v.height as int, row, col);
    }
}

proof fn lemma_gate_prefix(v: GameView, dt: nat, n: nat, k: nat)
    requires
        v.wf(),
        v.elapsed == 0,
        dt > 0,
        1 <= n,
        k <= n,
        n * dt <= u64::MAX,
    ensures
        k < n ==> run(v, ticks(dt, k), (n * dt) as int) == (GameView { elapsed: k * dt, ..v }),
        k == n ==> run(v, ticks(dt, k), (n * dt) as int) == (GameView {
            cells: next_gen(v.cells, v.width as int, v.height as int),
            elapsed: 0,
            ..v
        }),
    decreases k,
{
    let delay = (n * dt) as int;
    if k == 0 {
        assert(k * dt == 0) by (nonlinear_arith)
            requires
                k == 0,
        ;
    } else {
        lemma_gate_prefix(v, dt, n, (k - 1) as nat);
        let prev = run(v, ticks(dt, (k - 1) as nat), delay);
        assert(ticks(dt, k).drop_last() =~= ticks(dt, (k - 1) as nat));
        assert(run(v, ticks(dt, k), delay) == step_view(prev, dt, delay));
        assert((k - 1) * dt + dt == k * dt) by (nonlinear_arith);
        assert(k * dt <= n * dt) by (nonlinear_arith)
            requires
                k <= n,
        ;
        assert(k < n ==> k * dt < n * dt) by (nonlinear_arith)
            requires
                dt > 0,
        ;
        assert(accumulated(prev.elapsed, dt) == k * dt);
    }
}

/// The timing gate: starting from a fresh accumulator, with steps of `dt`
/// and a delay of `n * dt`, the first `n - 1` steps leave the grid as it is
/// and the `n`-th commits exactly one generation; reaching the delay exactly
/// is enough.
pub proof fn lemma_timing_gate(v: GameView, dt: nat, n: nat)
    requires
        v.wf(),
        v.elapsed == 0,
        dt > 0,
        1 <= n,
        n * dt <= u64::MAX,
    ensures
        forall|k: nat| k < n ==> (#[trigger] run(v, ticks(dt, k), (n * dt) as int)).cells == v.cells,
        run(v, ticks(dt, n), (n * dt) as int).cells == next_gen(
            v.cells,
            v.width as int,
            v.height as int,
        ),
{
    assert forall|k: nat| k < n implies (#[trigger] run(v, ticks(dt, k), (n * dt) as int)).cells
        == v.cells by {
        lemma_gate_prefix(v, dt, n, k);
    }
    lemma_gate_prefix(v, dt, n, n);
}

} // verus!
