use conway::grid::{init_cells, update_cells, Board};
use conway::render::{box_line_starts, box_origins, format_cells, line_points};

fn grid_with(width: usize, height: usize, live: &[(usize, usize)]) -> Board {
    let mut cells = init_cells(width, height);
    for &(r, c) in live {
        cells[r][c] = 1;
    }
    cells
}

fn live_cells(cells: &Board) -> Vec<(usize, usize)> {
    let mut out = Vec::new();
    for r in 0..cells.len() {
        for c in 0..cells[r].len() {
            if cells[r][c] != 0 {
                out.push((r, c));
            }
        }
    }
    out
}

#[test]
pub fn simple_test() {
    let width = 20;
    let height = 20;
    let mut cells = vec![vec![0; width]; height];
    cells[10][10] = 1;
    cells[10][11] = 1;
    cells[10][12] = 1;
    cells[10][13] = 1;
    cells[11][13] = 1;
    println!("{}", format_cells(&cells));
    let mut iterations = 10;
    loop {
        if iterations < 1 {
            break;
        }
        cells = update_cells(&cells);
        println!("{}", format_cells(&cells));
        iterations -= 1;
    }
}

#[test]
fn init_cells_is_all_dead_with_given_size() {
    let cells = init_cells(3, 2);
    assert_eq!(cells, vec![vec![0u16; 3]; 2]);
    assert_eq!(init_cells(1, 1), vec![vec![0u16]]);
}

#[test]
fn step_is_deterministic() {
    let cells = grid_with(8, 8, &[(1, 2), (2, 3), (3, 1), (3, 2), (3, 3)]);
    assert_eq!(update_cells(&cells), update_cells(&cells));
}

#[test]
fn step_leaves_input_unchanged() {
    let cells = grid_with(8, 8, &[(1, 2), (2, 3), (3, 1), (3, 2), (3, 3)]);
    let before = cells.clone();
    let next = update_cells(&cells);
    assert_eq!(cells, before);
    assert_ne!(next, cells);
}

#[test]
fn step_keeps_dimensions() {
    let cells = grid_with(7, 3, &[(1, 1), (1, 2), (1, 3)]);
    let next = update_cells(&cells);
    assert_eq!(next.len(), 3);
    for row in &next {
        assert_eq!(row.len(), 7);
    }
    let empty: Board = Vec::new();
    assert_eq!(update_cells(&empty).len(), 0);
}

#[test]
fn block_is_still_life() {
    let block = grid_with(6, 6, &[(2, 2), (2, 3), (3, 2), (3, 3)]);
    assert_eq!(update_cells(&block), block);
    let corner = grid_with(4, 4, &[(0, 0), (0, 1), (1, 0), (1, 1)]);
    assert_eq!(update_cells(&corner), corner);
}

#[test]
fn blinker_oscillates() {
    let horizontal = grid_with(10, 10, &[(5, 4), (5, 5), (5, 6)]);
    let vertical = update_cells(&horizontal);
    assert_eq!(live_cells(&vertical), vec![(4, 5), (5, 5), (6, 5)]);
    assert_eq!(update_cells(&vertical), horizontal);
}

#[test]
fn isolated_cell_dies() {
    let cells = grid_with(5, 5, &[(2, 2)]);
    assert_eq!(update_cells(&cells), init_cells(5, 5));
}

#[test]
fn dead_cell_with_three_neighbours_is_born() {
    let cells = grid_with(5, 5, &[(1, 1), (1, 3), (3, 2)]);
    assert_eq!(update_cells(&cells)[2][2], 1);
}

#[test]
fn dead_cell_with_two_or_four_neighbours_stays_dead() {
    let two = grid_with(5, 5, &[(1, 1), (3, 3)]);
    assert_eq!(update_cells(&two)[2][2], 0);
    let four = grid_with(5, 5, &[(1, 1), (1, 3), (3, 1), (3, 3)]);
    assert_eq!(update_cells(&four)[2][2], 0);
}

#[test]
fn live_cell_survives_on_two_and_three_dies_on_four() {
    let two = grid_with(5, 5, &[(2, 2), (1, 1), (3, 3)]);
    assert_eq!(update_cells(&two)[2][2], 1);
    let three = grid_with(5, 5, &[(2, 2), (1, 1), (3, 3), (1, 3)]);
    assert_eq!(update_cells(&three)[2][2], 1);
    let four = grid_with(5, 5, &[(2, 2), (1, 1), (1, 3), (3, 1), (3, 3)]);
    assert_eq!(update_cells(&four)[2][2], 0);
}

#[test]
fn any_nonzero_value_counts_as_live() {
    let mut cells = init_cells(5, 5);
    cells[2][2] = 7;
    cells[1][1] = 3;
    cells[3][3] = 2;
    let next = update_cells(&cells);
    assert_eq!(next[2][2], 1);
    assert_eq!(next[1][1], 0);
}

#[test]
fn corner_does_not_wrap() {
    let lone = grid_with(6, 6, &[(0, 0)]);
    assert_eq!(update_cells(&lone), init_cells(6, 6));
    // On a torus (0, 0) would see these three and be born.
    let far = grid_with(6, 6, &[(5, 5), (5, 0), (0, 5)]);
    assert_eq!(update_cells(&far)[0][0], 0);
    let near = grid_with(6, 6, &[(0, 1), (1, 0), (1, 1)]);
    assert_eq!(update_cells(&near)[0][0], 1);
}

#[test]
fn dead_grid_stays_dead() {
    for &(w, h) in &[(1usize, 1usize), (3, 5), (12, 4), (0, 2)] {
        let cells = init_cells(w, h);
        assert_eq!(update_cells(&cells), cells);
    }
}

#[test]
fn format_cells_draws_rule_and_rows() {
    let cells = grid_with(3, 2, &[(0, 1), (1, 0), (1, 2)]);
    assert_eq!(format_cells(&cells), "++\n # \n# #\n");
    assert_eq!(format_cells(&Vec::new()), "\n");
}

#[test]
fn box_origins_lists_live_cells_scaled() {
    let cells = grid_with(4, 3, &[(0, 1), (2, 0), (2, 3)]);
    assert_eq!(box_origins(&cells, 10), vec![(0, 10), (20, 0), (20, 30)]);
    assert_eq!(box_origins(&init_cells(4, 3), 10), vec![]);
}

#[test]
fn box_line_starts_clamps_rows_at_zero() {
    assert_eq!(box_line_starts(5, -2, 4), vec![(5, 0), (5, 0), (5, 0), (5, 1)]);
    assert_eq!(box_line_starts(5, 7, 2), vec![(5, 7), (5, 8)]);
    assert_eq!(box_line_starts(5, 7, 0), vec![]);
}

#[test]
fn line_points_clamps_columns_at_zero() {
    assert_eq!(line_points(-1, 3, 3), vec![(0, 3), (0, 3), (1, 3)]);
    assert_eq!(line_points(10, 3, 2), vec![(10, 3), (11, 3)]);
}
