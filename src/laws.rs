//! Facts about the update rule, proved over the grid model.

use vstd::prelude::*;
use crate::grid::{
    filled, grid_width, has_size, in_bounds, is_rectangular, live, live_neighbors, next_gen,
};

verus! {

/// A `w` by `h` grid whose live cells (value 1) are exactly the positions that `alive` accepts.
pub open spec fn pattern(w: nat, h: nat, alive: spec_fn(int, int) -> bool) -> Seq<Seq<u16>> {
    Seq::new(h, |r: int| Seq::new(w, |c: int| if alive(r, c) { 1u16 } else { 0u16 }))
}

/// The 2 by 2 square whose top-left cell is `(r0, c0)`.
pub open spec fn block(r0: int, c0: int) -> spec_fn(int, int) -> bool {
    |r: int, c: int| r0 <= r <= r0 + 1 && c0 <= c <= c0 + 1
}

/// Three cells in row `r0`, centred on column `c0`.
pub open spec fn horizontal_bar(r0: int, c0: int) -> spec_fn(int, int) -> bool {
    |r: int, c: int| r == r0 && c0 - 1 <= c <= c0 + 1
}

/// Three cells in column `c0`, centred on row `r0`.
pub open spec fn vertical_bar(r0: int, c0: int) -> spec_fn(int, int) -> bool {
    |r: int, c: int| c == c0 && r0 - 1 <= r <= r0 + 1
}

/// The single cell `(0, 0)`.
pub open spec fn top_left_only() -> spec_fn(int, int) -> bool {
    |r: int, c: int| r == 0 && c == 0
}

/// The next generation depends on the grid's contents alone: equal grids step to equal grids.
pub proof fn lemma_step_deterministic(a: Seq<Seq<u16>>, b: Seq<Seq<u16>>)
    requires
        a == b,
    ensures
        next_gen(a) == next_gen(b),
{
}

/// A step keeps a `w` by `h` grid `w` by `h`, and every cell of the result is 0 or 1.
pub proof fn lemma_step_keeps_size(g: Seq<Seq<u16>>, w: nat, h: nat)
    requires
        has_size(g, w as int, h as int),
        h > 0 || w == 0,
    ensures
        has_size(next_gen(g), w as int, h as int),
        forall|r: int, c: int|
            0 <= r < h && 0 <= c < w ==> #[trigger] next_gen(g)[r][c] == 0 || next_gen(g)[r][c]
                == 1,
{
}

/// A 2 by 2 block with nothing else live is its own next generation.
pub proof fn lemma_block_is_still(w: nat, h: nat, r0: int, c0: int)
    requires
        0 <= r0 && r0 + 1 < h,
        0 <= c0 && c0 + 1 < w,
    ensures
        next_gen(pattern(w, h, block(r0, c0))) == pattern(w, h, block(r0, c0)),
{
    let g = pattern(w, h, block(r0, c0));
    assert forall|r: int, c: int| 0 <= r < h && 0 <= c < w implies #[trigger] next_gen(g)[r][c]
        == g[r][c] by {
        assert(grid_width(g) == w);
    }
    assert(next_gen(g) =~~= g);
}

/// A bar of three cells turns from horizontal to vertical about its middle cell.
pub proof fn lemma_bar_turns_vertical(w: nat, h: nat, r0: int, c0: int)
    requires
        1 <= r0 && r0 + 1 < h,
        1 <= c0 && c0 + 1 < w,
    ensures
        next_gen(pattern(w, h, horizontal_bar(r0, c0))) == pattern(w, h, vertical_bar(r0, c0)),
{
    let g = pattern(w, h, horizontal_bar(r0, c0));
    let v = pattern(w, h, vertical_bar(r0, c0));
    assert forall|r: int, c: int| 0 <= r < h && 0 <= c < w implies #[trigger] next_gen(g)[r][c]
        == v[r][c] by {
        assert(grid_width(g) == w);
    }
    assert(next_gen(g) =~~= v);
}

/// A bar of three cells turns from vertical to horizontal about its middle cell.
pub proof fn lemma_bar_turns_horizontal(w: nat, h: nat, r0: int, c0: int)
    requires
        1 <= r0 && r0 + 1 < h,
        1 <= c0 && c0 + 1 < w,
    ensures
        next_gen(pattern(w, h, vertical_bar(r0, c0))) == pattern(w, h, horizontal_bar(r0, c0)),
{
    let g = pattern(w, h, vertical_bar(r0, c0));
    let v = pattern(w, h, horizontal_bar(r0, c0));
    assert forall|r: int, c: int| 0 <= r < h && 0 <= c < w implies #[trigger] next_gen(g)[r][c]
        == v[r][c] by {
        assert(grid_width(g) == w);
    }
    assert(next_gen(g) =~~= v);
}

/// The bar oscillates with period 2: two steps bring the horizontal bar back.
pub proof fn lemma_bar_period_two(w: nat, h: nat, r0: int, c0: int)
    requires
        1 <= r0 && r0 + 1 < h,
        1 <= c0 && c0 + 1 < w,
    ensures
        next_gen(next_gen(pattern(w, h, horizontal_bar(r0, c0)))) == pattern(
            w,
            h,
            horizontal_bar(r0, c0),
        ),
{
    lemma_bar_turns_vertical(w, h, r0, c0);
    lemma_bar_turns_horizontal(w, h, r0, c0);
}

/// A live cell with no live neighbour is dead in the next generation.
pub proof fn lemma_isolated_cell_dies(g: Seq<Seq<u16>>, r: int, c: int)
    requires
        is_rectangular(g),
        in_bounds(g, r, c),
        g[r][c] != 0,
        live_neighbors(g, r, c) == 0,
    ensures
        next_gen(g)[r][c] == 0,
{
}

/// A dead cell comes alive with exactly three live neighbours, and stays dead with two or four.
pub proof fn lemma_birth_on_three(g: Seq<Seq<u16>>, r: int, c: int)
    requires
        is_rectangular(g),
        in_bounds(g, r, c),
        g[r][c] == 0,
    ensures
        live_neighbors(g, r, c) == 3 ==> next_gen(g)[r][c] == 1,
        live_neighbors(g, r, c) == 2 ==> next_gen(g)[r][c] == 0,
        live_neighbors(g, r, c) == 4 ==> next_gen(g)[r][c] == 0,
{
}

/// Positions off the grid count as dead: the corner `(0, 0)` has only its three on-grid
/// neighbours, nothing wraps round from the far edges, and a lone corner cell dies.
pub proof fn lemma_corner_is_clipped(g: Seq<Seq<u16>>, w: nat, h: nat)
    requires
        has_size(g, w as int, h as int),
        h > 0,
        w > 0,
    ensures
        live_neighbors(g, 0, 0) == live(g, 0, 1) + live(g, 1, 0) + live(g, 1, 1),
        live_neighbors(g, 0, 0) <= 3,
        next_gen(pattern(w, h, top_left_only())) == filled(w, h, 0),
{
    let p = pattern(w, h, top_left_only());
    assert forall|r: int, c: int| 0 <= r < h && 0 <= c < w implies #[trigger] next_gen(p)[r][c]
        == 0 by {
        assert(grid_width(p) == w);
    }
    assert(next_gen(p) =~~= filled(w, h, 0));
}

/// An all-dead grid of any size steps to an all-dead grid of the same size.
pub proof fn lemma_dead_grid_is_fixed(w: nat, h: nat)
    requires
        h > 0 || w == 0,
    ensures
        next_gen(filled(w, h, 0)) == filled(w, h, 0),
{
    let g = filled(w, h, 0);
    assert forall|r: int, c: int| 0 <= r < h && 0 <= c < w implies #[trigger] next_gen(g)[r][c]
        == 0 by {
        assert(grid_width(g) == w);
    }
    assert(next_gen(g) =~~= filled(w, h, 0));
}

} // verus!
