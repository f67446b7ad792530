//! What the renderers print or draw for a grid: the text picture, and the pixel positions of
//! the square blocks that stand for live cells.

use vstd::prelude::*;
use crate::grid::{grid_width, is_rectangular, view_of, Board};

verus! {

/// `#` for a live cell, a space for a dead one.
pub open spec fn cell_char(v: u16) -> char {
    if v != 0 { '#' } else { ' ' }
}

/// One row of the picture, ended by a newline.
pub open spec fn row_text(row: Seq<u16>) -> Seq<char> {
    row.map_values(|v: u16| cell_char(v)).push('\n')
}

/// The first `k` rows of the picture.
pub open spec fn rows_text(g: Seq<Seq<u16>>, k: int) -> Seq<char>
    decreases k,
{
    if k <= 0 {
        Seq::empty()
    } else {
        rows_text(g, k - 1) + row_text(g[k - 1])
    }
}

/// The picture of a grid: a rule of one `+` per row, then each row on a line of its own.
pub open spec fn text_of(g: Seq<Seq<u16>>) -> Seq<char> {
    Seq::new(g.len(), |i: int| '+').push('\n') + rows_text(g, g.len() as int)
}

/// The text picture of `cells`.
pub fn format_cells(cells: &Board) -> (text: String)
    requires
        is_rectangular(view_of(cells)),
    ensures
        text@ == text_of(view_of(cells)),
{
    let ghost g = view_of(cells);
    let height = cells.len();
    let mut text = String::new();
    let mut i: usize = 0;
    while i < height
        invariant
            i <= height,
            height == g.len(),
            text@ == Seq::new(i as nat, |k: int| '+'),
        decreases height - i,
    {
        proof {
            reveal_strlit("+");
        }
        text.append("+");
        i = i + 1;
        assert(text@ =~= Seq::new(i as nat, |k: int| '+'));
    }
    proof {
        reveal_strlit("\n");
    }
    text.append("\n");
    let width = if height == 0 {
        0
    } else {
        cells[0].len()
    };
    let ghost rule = text@;
    let mut row: usize = 0;
    while row < height
        invariant
            g == view_of(cells),
            is_rectangular(g),
            height == cells.len(),
            width == grid_width(g),
            row <= height,
            rule == Seq::new(height as nat, |k: int| '+').push('\n'),
            text@ == rule + rows_text(g, row as int),
        decreases height - row,
    {
        assert(g[row as int] == cells@[row as int]@);
        let ghost before = text@;
        let mut col: usize = 0;
        while col < width
            invariant
                g == view_of(cells),
                is_rectangular(g),
                height == cells.len(),
                width == grid_width(g),
                row < height,
                col <= width,
                g[row as int] == cells@[row as int]@,
                text@ == before + g[row as int].take(col as int).map_values(
                    |v: u16| cell_char(v),
                ),
            decreases width - col,
        {
            proof {
                reveal_strlit("#");
                reveal_strlit(" ");
            }
            if cells[row][col] != 0 {
                text.append("#");
            } else {
                text.append(" ");
            }
            col = col + 1;
            assert(g[row as int].take(col as int) =~= g[row as int].take(col - 1 as int).push(
                g[row as int][col - 1 as int],
            ));
            assert(text@ =~= before + g[row as int].take(col as int).map_values(
                |v: u16| cell_char(v),
            ));
        }
        proof {
            reveal_strlit("\n");
        }
        text.append("\n");
        assert(g[row as int].take(col as int) =~= g[row as int]);
        row = row + 1;
        assert(text@ =~= rule + rows_text(g, row as int));
    }
    text
}

/// `v`, or 0 where `v` is negative.
pub open spec fn clamp_at_zero(v: int) -> int {
    if v < 0 { 0 } else { v }
}

/// The top-left pixels of the blocks for the live cells among the first `n` cells of row `i`:
/// cell `(i, j)` maps to pixel `(i * pixels, j * pixels)`.
pub open spec fn row_origins(row: Seq<u16>, i: int, pixels: int, n: int) -> Seq<(i32, i32)>
    decreases n,
{
    if n <= 0 {
        Seq::empty()
    } else if row[n - 1] != 0 {
        row_origins(row, i, pixels, n - 1).push(((i * pixels) as i32, ((n - 1) * pixels) as i32))
    } else {
        row_origins(row, i, pixels, n - 1)
    }
}

/// The block origins for the live cells of the first `k` rows, in row-major order.
pub open spec fn grid_origins(g: Seq<Seq<u16>>, pixels: int, k: int) -> Seq<(i32, i32)>
    decreases k,
{
    if k <= 0 {
        Seq::empty()
    } else {
        grid_origins(g, pixels, k - 1) + row_origins(g[k - 1], k - 1, pixels, grid_width(g))
    }
}

/// The top-left pixel of the block to draw for each live cell, in row-major order, with blocks
/// `pixels` wide.
pub fn box_origins(cells: &Board, pixels: i32) -> (origins: Vec<(i32, i32)>)
    requires
        is_rectangular(view_of(cells)),
        0 <= pixels,
        cells.len() * pixels <= i32::MAX,
        grid_width(view_of(cells)) * pixels <= i32::MAX,
    ensures
        origins@ == grid_origins(view_of(cells), pixels as int, cells.len() as int),
{
    let ghost g = view_of(cells);
    let height = cells.len();
    let width = if height == 0 {
        0
    } else {
        cells[0].len()
    };
    let mut origins: Vec<(i32, i32)> = Vec::new();
    let mut i: usize = 0;
    while i < height
        invariant
            g == view_of(cells),
            is_rectangular(g),
            height == cells.len(),
            width == grid_width(g),
            0 <= pixels,
            height * pixels <= i32::MAX,
            width * pixels <= i32::MAX,
            i <= height,
            origins@ == grid_origins(g, pixels as int, i as int),
        decreases height - i,
    {
        assert(g[i as int] == cells@[i as int]@);
        assert(i * pixels <= height * pixels) by (nonlinear_arith)
            requires
                i < height,
                0 <= pixels,
        ;
        let x: i32 = if pixels == 0 {
            0
        } else {
            assert(i <= i * pixels) by (nonlinear_arith)
                requires
                    1 <= pixels,
            ;
            i as i32 * pixels
        };
        let ghost before = origins@;
        let mut j: usize = 0;
        while j < width
            invariant
                g == view_of(cells),
                is_rectangular(g),
                height == cells.len(),
                width == grid_width(g),
                0 <= pixels,
                width * pixels <= i32::MAX,
                i < height,
                x == i * pixels,
                g[i as int] == cells@[i as int]@,
                j <= width,
                origins@ == before + row_origins(g[i as int], i as int, pixels as int, j as int),
            decreases width - j,
        {
            assert(j * pixels <= width * pixels) by (nonlinear_arith)
                requires
                    j < width,
                    0 <= pixels,
            ;
            if cells[i][j] != 0 {
                let y: i32 = if pixels == 0 {
                    0
                } else {
                    assert(j <= j * pixels) by (nonlinear_arith)
                        requires
                            1 <= pixels,
                    ;
                    j as i32 * pixels
                };
                origins.push((x, y));
            }
            j = j + 1;
            assert(origins@ =~= before + row_origins(g[i as int], i as int, pixels as int, j as int));
        }
        i = i + 1;
        assert(origins@ =~= grid_origins(g, pixels as int, i as int));
    }
    origins
}

/// The start of each line of a block `pixels` high whose top-left pixel is `(x, y)`: column
/// `x`, rows `y` to `y + pixels - 1`, each clamped at 0.
pub fn box_line_starts(x: i32, y: i32, pixels: i32) -> (starts: Vec<(i32, i32)>)
    requires
        y + pixels <= i32::MAX,
    ensures
        starts@.len() == clamp_at_zero(pixels as int),
        forall|k: int|
            0 <= k < starts@.len() ==> #[trigger] starts@[k].0 == x && starts@[k].1 == clamp_at_zero(y + k),
{
    let mut starts: Vec<(i32, i32)> = Vec::new();
    let mut i: i32 = 0;
    while i < pixels
        invariant
            0 <= i,
            i <= clamp_at_zero(pixels as int),
            y + pixels <= i32::MAX,
            starts@.len() == i,
            forall|k: int|
                0 <= k < starts@.len() ==> #[trigger] starts@[k].0 == x && starts@[k].1 == clamp_at_zero(y + k),
        decreases pixels - i,
    {
        let row = if y + i < 0 {
            0
        } else {
            y + i
        };
        starts.push((x, row));
        i = i + 1;
    }
    starts
}

/// The pixels of a line `pixels` long that starts at `(x, y)`: columns `x` to
/// `x + pixels - 1`, each clamped at 0, in row `y`.
pub fn line_points(x: i32, y: i32, pixels: i32) -> (points: Vec<(i32, i32)>)
    requires
        x + pixels <= i32::MAX,
    ensures
        points@.len() == clamp_at_zero(pixels as int),
        forall|k: int|
            0 <= k < points@.len() ==> #[trigger] points@[k].0 == clamp_at_zero(x + k) && points@[k].1 == y,
{
    let mut points: Vec<(i32, i32)> = Vec::new();
    let mut i: i32 = 0;
    while i < pixels
        invariant
            0 <= i,
            i <= clamp_at_zero(pixels as int),
            x + pixels <= i32::MAX,
            points@.len() == i,
            forall|k: int|
                0 <= k < points@.len() ==> #[trigger] points@[k].0 == clamp_at_zero(x + k) && points@[k].1 == y,
        decreases pixels - i,
    {
        let col = if x + i < 0 {
            0
        } else {
            x + i
        };
        points.push((col, y));
        i = i + 1;
    }
    points
}

} // verus!
