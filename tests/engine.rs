use game_of_life::game::{Game, GameError};
use game_of_life::grid::{alive_neighbours, fill_next_generation, next_generation, next_state, Cell};
use game_of_life::pattern::data_from_lines;

const A: Cell = Cell::Alive;
const D: Cell = Cell::Dead;

fn grid(rows: &[&str]) -> Vec<Cell> {
    let mut cells = Vec::new();
    for row in rows {
        for c in row.chars() {
            cells.push(if c == 'x' { A } else { D });
        }
    }
    cells
}

fn game(rows: &[&str]) -> Game {
    let height = rows.len() as u32;
    let width = rows[0].len() as u32;
    Game::new(grid(rows), width, height).unwrap()
}

#[test]
fn new_accepts_matching_length() {
    let g = game(&["x..", "...", "..x", "..."]);
    assert_eq!(g.width(), 3);
    assert_eq!(g.height(), 4);
    assert_eq!(g.elapsed(), 0);
    assert_eq!(g.current_generation(), &grid(&["x..", "...", "..x", "..."])[..]);
}

#[test]
fn new_rejects_wrong_length() {
    assert_eq!(Game::new(vec![D; 5], 2, 3).err(), Some(GameError::InvalidDimensions));
    assert_eq!(Game::new(vec![D; 7], 2, 3).err(), Some(GameError::InvalidDimensions));
}

#[test]
fn new_rejects_zero_dimension() {
    assert_eq!(Game::new(Vec::new(), 0, 3).err(), Some(GameError::InvalidDimensions));
    assert_eq!(Game::new(Vec::new(), 3, 0).err(), Some(GameError::InvalidDimensions));
}

#[test]
fn cell_at_reads_row_major() {
    let g = game(&["x..", "..x"]);
    assert_eq!(g.cell_at(0, 0), Ok(A));
    assert_eq!(g.cell_at(0, 1), Ok(D));
    assert_eq!(g.cell_at(1, 2), Ok(A));
    assert_eq!(g.cell_at(1, 0), Ok(D));
}

#[test]
fn cell_at_out_of_bounds() {
    let g = game(&["x..", "..x"]);
    assert_eq!(g.cell_at(2, 0), Err(GameError::OutOfBounds));
    assert_eq!(g.cell_at(0, 3), Err(GameError::OutOfBounds));
    assert_eq!(g.cell_at(5, 5), Err(GameError::OutOfBounds));
}

#[test]
fn negative_delay_is_refused_and_changes_nothing() {
    let mut g = game(&["...", "xxx", "..."]);
    assert_eq!(g.step(10, 20), Ok(false));
    assert_eq!(g.step(100, -1), Err(GameError::InvalidDelay));
    assert_eq!(g.elapsed(), 10);
    assert_eq!(g.current_generation(), &grid(&["...", "xxx", "..."])[..]);
}

#[test]
fn next_generation_is_deterministic_and_pure() {
    let g = game(&["x.x.", ".xx.", "x..x", ".x.."]);
    let before = g.current_generation().to_vec();
    let first = g.next_generation();
    let second = g.next_generation();
    assert_eq!(first, second);
    assert_eq!(g.current_generation(), &before[..]);
    assert_eq!(first, next_generation(&before, 4, 4));
}

#[test]
fn lonely_cell_dies() {
    let g = game(&["...", ".x.", "..."]);
    assert_eq!(g.neighbor_count(4), 0);
    assert_eq!(g.next_generation(), vec![D; 9]);
}

#[test]
fn live_cell_with_two_neighbours_survives() {
    let g = game(&["x..", ".x.", "..x"]);
    assert_eq!(g.neighbor_count(4), 2);
    assert_eq!(g.next_generation()[4], A);
}

#[test]
fn live_cell_with_three_neighbours_survives() {
    let g = game(&["x.x", ".x.", "..x"]);
    assert_eq!(g.neighbor_count(4), 3);
    assert_eq!(g.next_generation()[4], A);
}

#[test]
fn live_cell_with_four_neighbours_dies() {
    let g = game(&["x.x", ".x.", "x.x"]);
    assert_eq!(g.neighbor_count(4), 4);
    assert_eq!(g.next_generation()[4], D);
}

#[test]
fn dead_cell_with_three_neighbours_is_born() {
    let g = game(&["x.x", "...", ".x."]);
    assert_eq!(g.neighbor_count(4), 3);
    assert_eq!(g.next_generation()[4], A);
}

#[test]
fn dead_cell_with_two_or_four_neighbours_stays_dead() {
    let two = game(&["x.x", "...", "..."]);
    assert_eq!(two.neighbor_count(4), 2);
    assert_eq!(two.next_generation()[4], D);
    let four = game(&["x.x", "...", "x.x"]);
    assert_eq!(four.neighbor_count(4), 4);
    assert_eq!(four.next_generation()[4], D);
}

#[test]
fn next_state_table() {
    for n in 0..=8u32 {
        let alive = if n == 2 || n == 3 { A } else { D };
        let dead = if n == 3 { A } else { D };
        assert_eq!(next_state(A, n), alive);
        assert_eq!(next_state(D, n), dead);
    }
}

#[test]
fn corner_of_two_by_two_has_three_neighbours() {
    let g = game(&["xx", "xx"]);
    assert_eq!(g.neighbor_count(0), 3);
    assert_eq!(g.neighbor_count(3), 3);
    let h = game(&["x.", ".x"]);
    assert_eq!(h.neighbor_count(0), 1);
}

#[test]
fn single_cell_grid_has_no_neighbours() {
    assert_eq!(game(&["x"]).neighbor_count(0), 0);
    assert_eq!(game(&["."]).neighbor_count(0), 0);
    assert_eq!(game(&["x"]).next_generation(), vec![D]);
}

#[test]
fn columns_do_not_alias_into_adjacent_rows() {
    // (0, 2) is next to (1, 0) in flat order but not on the grid.
    let g = game(&["..x", "...", "..."]);
    assert_eq!(g.neighbor_count(3), 0);
    let h = game(&["...", "...", "x.."]);
    assert_eq!(h.neighbor_count(5), 0);
    assert_eq!(alive_neighbours(&grid(&["..x", "x..", "..."]), 3, 3, 3), 0);
    assert_eq!(alive_neighbours(&grid(&["..x", "x..", "..."]), 5, 3, 3), 1);
}

#[test]
fn neighbour_count_full_grid() {
    let g = game(&["xxx", "xxx", "xxx"]);
    let counts: Vec<u32> = (0..9).map(|i| g.neighbor_count(i)).collect();
    assert_eq!(counts, vec![3, 5, 3, 5, 8, 5, 3, 5, 3]);
}

#[test]
fn block_is_still_life() {
    let start = grid(&["....", ".xx.", ".xx.", "...."]);
    let mut g = Game::new(start.clone(), 4, 4).unwrap();
    for _ in 0..10 {
        assert_eq!(g.step(1, 0), Ok(true));
        assert_eq!(g.current_generation(), &start[..]);
    }
}

#[test]
fn block_in_corner_is_still_life() {
    let start = grid(&["xx.", "xx.", "..."]);
    let mut g = Game::new(start.clone(), 3, 3).unwrap();
    for _ in 0..4 {
        assert_eq!(g.step(0, 0), Ok(true));
        assert_eq!(g.current_generation(), &start[..]);
    }
}

#[test]
fn blinker_oscillates() {
    let horizontal = grid(&[".....", ".xxx.", "....."]);
    let vertical = grid(&["..x..", "..x..", "..x.."]);
    let mut g = Game::new(horizontal.clone(), 5, 3).unwrap();
    for k in 1..=4 {
        assert_eq!(g.step(0, 0), Ok(true));
        let expected = if k % 2 == 1 { &vertical } else { &horizontal };
        assert_eq!(g.current_generation(), &expected[..]);
    }
}

#[test]
fn timing_gate_fifth_call_advances() {
    let horizontal = grid(&[".....", ".xxx.", "....."]);
    let vertical = grid(&["..x..", "..x..", "..x.."]);
    let mut g = Game::new(horizontal.clone(), 5, 3).unwrap();
    for k in 1..=4u64 {
        assert_eq!(g.step(100_000, 500_000), Ok(false));
        assert_eq!(g.elapsed(), k * 100_000);
        assert_eq!(g.current_generation(), &horizontal[..]);
    }
    assert_eq!(g.step(100_000, 500_000), Ok(true));
    assert_eq!(g.elapsed(), 0);
    assert_eq!(g.current_generation(), &vertical[..]);
    assert_eq!(g.step(100_000, 500_000), Ok(false));
    assert_eq!(g.current_generation(), &vertical[..]);
}

#[test]
fn accumulator_saturates() {
    let mut g = game(&["x"]);
    assert_eq!(g.step(u64::MAX - 1, i64::MAX), Ok(true));
    assert_eq!(g.step(u64::MAX, i64::MAX), Ok(true));
    assert_eq!(g.step(5, i64::MAX), Ok(false));
    assert_eq!(g.step(u64::MAX, i64::MAX), Ok(true));
    assert_eq!(g.elapsed(), 0);
}

#[test]
fn size_is_kept_over_steps() {
    let mut g = game(&["x.x.x", ".xxx.", "x...x", ".x.x."]);
    for k in 0..20u64 {
        let _ = g.step(k % 3, 1);
        assert_eq!(g.current_generation().len(), 20);
        assert_eq!(g.width(), 5);
        assert_eq!(g.height(), 4);
    }
}

#[test]
fn live_cells_in_row_major_order() {
    let g = game(&["x..x", "....", ".xx."]);
    assert_eq!(g.live_cells(), vec![(0, 0), (0, 3), (2, 1), (2, 2)]);
    assert_eq!(game(&["..", ".."]).live_cells(), Vec::<(u32, u32)>::new());
}

fn lines(text: &[&str]) -> Vec<Vec<char>> {
    text.iter().map(|l| l.chars().collect()).collect()
}

#[test]
fn pattern_maps_x_to_alive() {
    let data = data_from_lines(&lines(&["x.x", "oxX"]), 3, 2);
    assert_eq!(data, vec![A, D, A, D, A, D]);
}

#[test]
fn pattern_pads_short_lines_and_missing_rows() {
    let data = data_from_lines(&lines(&["x", ""]), 3, 3);
    assert_eq!(data, vec![A, D, D, D, D, D, D, D, D]);
}

#[test]
fn pattern_ignores_extra_rows_and_columns() {
    let data = data_from_lines(&lines(&["xx.xx", ".x.x", "xxxx"]), 2, 2);
    assert_eq!(data, vec![A, A, D, A]);
}

#[test]
fn pattern_counts_characters_not_bytes() {
    let data = data_from_lines(&lines(&["éx"]), 2, 1);
    assert_eq!(data, vec![D, A]);
}

#[test]
fn pattern_then_game() {
    let data = data_from_lines(&lines(&[".x.", ".x.", ".x."]), 3, 3);
    let mut g = Game::new(data, 3, 3).unwrap();
    assert_eq!(g.step(0, 0), Ok(true));
    assert_eq!(g.live_cells(), vec![(1, 0), (1, 1), (1, 2)]);
}

#[test]
fn fill_discards_earlier_contents() {
    let data = grid(&["...", "xxx", "..."]);
    let mut out = vec![A; 20];
    fill_next_generation(&data, 3, 3, &mut out);
    assert_eq!(out, grid(&[".x.", ".x.", ".x."]));
}
