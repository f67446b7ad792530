//! The grid model and the B3/S23 update rule.

use vstd::prelude::*;

verus! {

/// A grid of cells addressed as `cells[row][column]`; 0 is dead, anything else live.
pub type Board = Vec<Vec<u16>>;

/// The mathematical value of a board: its rows as sequences.
pub open spec fn view_of(b: &Board) -> Seq<Seq<u16>> {
    b@.map_values(|row: Vec<u16>| row@)
}

/// Number of rows.
pub open spec fn grid_height(g: Seq<Seq<u16>>) -> int {
    g.len() as int
}

/// Number of columns; row 0 fixes it.
pub open spec fn grid_width(g: Seq<Seq<u16>>) -> int {
    if g.len() == 0 { 0 } else { g[0].len() as int }
}

/// Every row is as long as row 0.
pub open spec fn is_rectangular(g: Seq<Seq<u16>>) -> bool {
    forall|r: int| 0 <= r < g.len() ==> #[trigger] g[r].len() == grid_width(g)
}

/// A grid of `h` rows of `w` cells each.
pub open spec fn has_size(g: Seq<Seq<u16>>, w: int, h: int) -> bool {
    &&& g.len() == h
    &&& forall|r: int| 0 <= r < h ==> #[trigger] g[r].len() == w
}

pub open spec fn in_bounds(g: Seq<Seq<u16>>, r: int, c: int) -> bool {
    0 <= r < grid_height(g) && 0 <= c < grid_width(g)
}

/// 1 where a live cell stands at `(r, c)`, 0 for a dead cell or a position off the grid.
pub open spec fn live(g: Seq<Seq<u16>>, r: int, c: int) -> nat {
    if in_bounds(g, r, c) && g[r][c] != 0 { 1 } else { 0 }
}

/// How many of the eight surrounding positions hold a live cell.
pub open spec fn live_neighbors(g: Seq<Seq<u16>>, r: int, c: int) -> nat {
    live(g, r - 1, c - 1) + live(g, r - 1, c) + live(g, r - 1, c + 1)
        + live(g, r, c - 1) + live(g, r, c + 1)
        + live(g, r + 1, c - 1) + live(g, r + 1, c) + live(g, r + 1, c + 1)
}

/// The rule by neighbour count: at most 1 dies, 2 keeps the cell as it is, 3 gives a live
/// cell, 4 or more dies.
pub open spec fn next_state(alive: bool, n: nat) -> u16 {
    if n <= 1 {
        0
    } else if n == 2 {
        if alive { 1 } else { 0 }
    } else if n == 3 {
        1
    } else {
        0
    }
}

/// The next generation of `g`, cell by cell.
pub open spec fn next_gen(g: Seq<Seq<u16>>) -> Seq<Seq<u16>> {
    Seq::new(
        g.len(),
        |r: int|
            Seq::new(
                grid_width(g) as nat,
                |c: int| next_state(g[r][c] != 0, live_neighbors(g, r, c)),
            ),
    )
}

/// A grid whose cells all hold `v`.
pub open spec fn filled(w: nat, h: nat, v: u16) -> Seq<Seq<u16>> {
    Seq::new(h, |r: int| Seq::new(w, |c: int| v))
}

/// A new grid of `height` rows and `width` columns, every cell dead.
pub fn init_cells(width: usize, height: usize) -> (cells: Board)
    ensures
        view_of(&cells) == filled(width as nat, height as nat, 0),
{
    let mut cells: Board = Vec::new();
    let mut r: usize = 0;
    while r < height
        invariant
            r <= height,
            view_of(&cells) == filled(width as nat, r as nat, 0),
        decreases height - r,
    {
        let mut row: Vec<u16> = Vec::new();
        let mut c: usize = 0;
        while c < width
            invariant
                c <= width,
                row@ == Seq::new(c as nat, |k: int| 0u16),
            decreases width - c,
        {
            row.push(0);
            c = c + 1;
            assert(row@ =~= Seq::new(c as nat, |k: int| 0u16));
        }
        let ghost prev = view_of(&cells);
        cells.push(row);
        assert(view_of(&cells) =~= prev.push(row@));
        r = r + 1;
        assert(view_of(&cells) =~~= filled(width as nat, r as nat, 0));
    }
    cells
}

/// 1 where the position `(row + dr, col + dc)` is on the grid and holds a live cell, else 0.
fn live_at(cells: &Board, row: usize, col: usize, dr: i8, dc: i8) -> (n: u8)
    requires
        is_rectangular(view_of(cells)),
        row < cells.len(),
        col < grid_width(view_of(cells)),
        -1 <= dr <= 1,
        -1 <= dc <= 1,
    ensures
        n as nat == live(view_of(cells), row + dr, col + dc),
{
    let ghost g = view_of(cells);
    let height = cells.len();
    let width = cells[0].len();
    let r: usize = if dr < 0 {
        if row == 0 {
            return 0;
        }
        row - 1
    } else if dr == 0 {
        row
    } else {
        if row + 1 >= height {
            return 0;
        }
        row + 1
    };
    let c: usize = if dc < 0 {
        if col == 0 {
            return 0;
        }
        col - 1
    } else if dc == 0 {
        col
    } else {
        if col + 1 >= width {
            return 0;
        }
        col + 1
    };
    assert(g[r as int] == cells@[r as int]@);
    assert(cells@[r as int]@.len() == width);
    if cells[r][c] != 0 {
        1
    } else {
        0
    }
}

/// The next generation: every cell is recomputed from `cells`, which is left as it is.
pub fn update_cells(cells: &Board) -> (updated: Board)
    requires
        is_rectangular(view_of(cells)),
    ensures
        view_of(&updated) == next_gen(view_of(cells)),
{
    let ghost g = view_of(cells);
    let height = cells.len();
    let width = if height == 0 {
        0
    } else {
        cells[0].len()
    };
    let mut updated: Board = Vec::new();
    let mut row: usize = 0;
    while row < height
        invariant
            g == view_of(cells),
            is_rectangular(g),
            height == cells.len(),
            width == grid_width(g),
            row <= height,
            view_of(&updated) == next_gen(g).take(row as int),
        decreases height - row,
    {
        let mut new_row: Vec<u16> = Vec::new();
        let mut col: usize = 0;
        while col < width
            invariant
                g == view_of(cells),
                is_rectangular(g),
                height == cells.len(),
                width == grid_width(g),
                row < height,
                col <= width,
                new_row@ == next_gen(g)[row as int].take(col as int),
            decreases width - col,
        {
            let n: u8 = live_at(cells, row, col, -1, -1) + live_at(cells, row, col, -1, 0)
                + live_at(cells, row, col, -1, 1) + live_at(cells, row, col, 0, -1)
                + live_at(cells, row, col, 0, 1) + live_at(cells, row, col, 1, -1)
                + live_at(cells, row, col, 1, 0) + live_at(cells, row, col, 1, 1);
            assert(g[row as int] == cells@[row as int]@);
            let alive = cells[row][col] != 0;
            let state: u16 = if n <= 1 {
                0
            } else if n == 2 {
                if alive {
                    1
                } else {
                    0
                }
            } else if n == 3 {
                1
            } else {
                0
            };
            assert(state == next_state(g[row as int][col as int] != 0, live_neighbors(g, row as int, col as int)));
            new_row.push(state);
            col = col + 1;
            assert(new_row@ =~= next_gen(g)[row as int].take(col as int));
        }
        assert(new_row@ =~= next_gen(g)[row as int]);
        let ghost prev = view_of(&updated);
        updated.push(new_row);
        assert(view_of(&updated) =~= prev.push(new_row@));
        row = row + 1;
        assert(view_of(&updated) =~~= next_gen(g).take(row as int));
    }
    assert(view_of(&updated) =~= next_gen(g));
    updated
}

} // verus!
