//! Turning the lines of a text pattern into a grid.
use vstd::prelude::*;
use crate::grid::{Cell, lemma_index_of};

verus! {

/// The cell that a pattern gives to `(row, col)`: alive where line `row` has
/// an `'x'` in column `col`, dead everywhere else, including past the end of
/// a line and past the last line.
pub open spec fn pattern_cell(lines: Seq<Vec<char>>, row: int, col: int) -> Cell {
    if 0 <= row < lines.len() && 0 <= col < lines[row]@.len() && lines[row]@[col] == 'x' {
        Cell::Alive
    } else {
        Cell::Dead
    }
}

/// The `width` x `height` grid that a pattern describes; lines past `height`
/// and columns past `width` are ignored.
pub open spec fn pattern_grid(lines: Seq<Vec<char>>, width: int, height: int) -> Seq<Cell> {
    Seq::new((width * height) as nat, |i: int| pattern_cell(lines, i / width, i % width))
}

/// Builds a `width` x `height` grid, row by row, from the lines of a pattern.
pub fn data_from_lines(lines: &Vec<Vec<char>>, width: u32, height: u32) -> (r: Vec<Cell>)
    requires
        width * height <= usize::MAX,
    ensures
        r@ == pattern_grid(lines@, width as int, height as int),
{
    let mut data: Vec<Cell> = Vec::new();
    let mut row: u32 = 0;
    while row < height
        invariant
            width * height <= usize::MAX,
            row <= height,
            data@.len() == row * width,
            forall|j: int|
                0 <= j < data@.len() ==> #[trigger] data@[j] == pattern_cell(
                    lines@,
                    j / width as int,
                    j % width as int,
                ),
        decreases height - row,
    {
        let mut col: u32 = 0;
        while col < width
            invariant
                width * height <= usize::MAX,
                row < height,
                col <= width,
                data@.len() == row * width + col,
                forall|j: int|
                    0 <= j < data@.len() ==> #[trigger] data@[j] == pattern_cell(
                        lines@,
                        j / width as int,
                        j % width as int,
                    ),
            decreases width - col,
        {
            proof {
                lemma_index_of(width as int, height as int, row as int, col as int);
            }
            let r = row as usize;
            let c = col as usize;
            let alive = r < lines.len() && c < lines[r].len() && lines[r][c] == 'x';
            data.push(
                if alive {
                    Cell::Alive
                } else {
                    Cell::Dead
                },
            );
            col += 1;
        }
        proof {
            assert(row * width + width == (row + 1) * width) by (nonlinear_arith);
        }
        row += 1;
    }
    proof {
        assert(data@.len() == width * height) by (nonlinear_arith)
            requires
                data@.len() == row * width,
                row == height,
        ;
    }
    assert(data@ =~= pattern_grid(lines@, width as int, height as int));
    data
}

} // verus!
