//! Counting bombs in rows, whole grids, and 3x3 neighborhoods.
//!
//! These spec functions are the mathematical model behind the parser's bomb
//! total and each tile's adjacency count, together with the lemmas the
//! executable code needs about them.

use vstd::prelude::*;

use crate::tile::Tile;

verus! {

/// 1 for true, 0 for false; the building block of the counts below.
pub open spec fn count_bool(b: bool) -> int {
    if b {
        1int
    } else {
        0int
    }
}

/// Does the cell `(i, j)` exist and hold a bomb?
///
/// Out-of-bounds cells count as bomb-free, so the same definition serves
/// tiles in the interior, on the edges, and in the corners of the grid.
pub open spec fn bomb_at(g: Seq<Seq<Tile>>, i: int, j: int) -> bool {
    0 <= i < g.len() && 0 <= j < g[i].len() && g[i][j].has_bomb
}

/// How many bombs sit in the 8-neighborhood of `(i, j)`?
///
/// The tile at `(i, j)` itself is not included: a bomb never counts itself,
/// so the result always lies in `0..=8`.
pub open spec fn adj_count(g: Seq<Seq<Tile>>, i: int, j: int) -> int {
    count_bool(bomb_at(g, i - 1, j - 1)) + count_bool(bomb_at(g, i - 1, j)) + count_bool(
        bomb_at(g, i - 1, j + 1),
    ) + count_bool(bomb_at(g, i, j - 1)) + count_bool(bomb_at(g, i, j + 1)) + count_bool(
        bomb_at(g, i + 1, j - 1),
    ) + count_bool(bomb_at(g, i + 1, j)) + count_bool(bomb_at(g, i + 1, j + 1))
}

/// The number of bombs in one row.
pub open spec fn row_bombs(r: Seq<Tile>) -> int
    decreases r.len(),
{
    if r.len() == 0 {
        0int
    } else {
        row_bombs(r.drop_last()) + count_bool(r.last().has_bomb)
    }
}

/// The number of bombs in the whole grid.
pub open spec fn grid_bombs(g: Seq<Seq<Tile>>) -> int
    decreases g.len(),
{
    if g.len() == 0 {
        0int
    } else {
        grid_bombs(g.drop_last()) + row_bombs(g.last())
    }
}

/// An adjacency count always lies between 0 and 8: the tile itself is
/// excluded, so only its at most eight neighbors can contribute.
pub proof fn lemma_adj_count_range(g: Seq<Seq<Tile>>, i: int, j: int)
    ensures
        0 <= adj_count(g, i, j) <= 8,
{
}

/// A row holds between 0 and `len` bombs.
pub proof fn lemma_row_bombs_bounds(r: Seq<Tile>)
    ensures
        0 <= row_bombs(r) <= r.len(),
    decreases r.len(),
{
    if r.len() > 0 {
        lemma_row_bombs_bounds(r.drop_last());
    }
}

/// A grid whose rows all have length `w` holds between 0 and `len * w` bombs.
pub proof fn lemma_grid_bombs_bounds(g: Seq<Seq<Tile>>, w: int)
    requires
        forall|i: int| 0 <= i < g.len() ==> #[trigger] g[i].len() == w,
    ensures
        0 <= grid_bombs(g) <= g.len() * w,
    decreases g.len(),
{
    if g.len() == 0 {
    } else {
        lemma_grid_bombs_bounds(g.drop_last(), w);
        lemma_row_bombs_bounds(g.last());
        assert(g.len() * w == (g.len() - 1) * w + w) by (nonlinear_arith);
    }
}

/// A row with a bomb-free cell holds at most `len - 1` bombs.
pub proof fn lemma_row_bombs_missing(r: Seq<Tile>, j: int)
    requires
        0 <= j < r.len(),
        !r[j].has_bomb,
    ensures
        row_bombs(r) <= r.len() - 1,
    decreases r.len(),
{
    lemma_row_bombs_bounds(r.drop_last());
    if j == r.len() - 1 {
    } else {
        lemma_row_bombs_missing(r.drop_last(), j);
    }
}

/// A grid with a bomb-free cell holds at most `len * w - 1` bombs.
pub proof fn lemma_grid_bombs_missing(g: Seq<Seq<Tile>>, w: int, i: int, j: int)
    requires
        forall|k: int| 0 <= k < g.len() ==> #[trigger] g[k].len() == w,
        0 <= i < g.len(),
        0 <= j < w,
        !g[i][j].has_bomb,
    ensures
        grid_bombs(g) <= g.len() * w - 1,
    decreases g.len(),
{
    if i == g.len() - 1 {
        lemma_grid_bombs_bounds(g.drop_last(), w);
        lemma_row_bombs_missing(g.last(), j);
        assert(g.len() * w == (g.len() - 1) * w + w) by (nonlinear_arith);
    } else {
        lemma_grid_bombs_missing(g.drop_last(), w, i, j);
        lemma_row_bombs_bounds(g.last());
        assert(g.len() * w == (g.len() - 1) * w + w) by (nonlinear_arith);
    }
}

/// Two rows with the same bomb placement hold the same number of bombs,
/// whatever their visibility or adjacency fields say.
pub proof fn lemma_row_bombs_pointwise(r1: Seq<Tile>, r2: Seq<Tile>)
    requires
        r1.len() == r2.len(),
        forall|j: int| 0 <= j < r1.len() ==> r1[j].has_bomb == #[trigger] r2[j].has_bomb,
    ensures
        row_bombs(r1) == row_bombs(r2),
    decreases r1.len(),
{
    if r1.len() > 0 {
        lemma_row_bombs_pointwise(r1.drop_last(), r2.drop_last());
    }
}

/// Two grids with the same shape and the same bomb placement hold the same
/// number of bombs.
pub proof fn lemma_grid_bombs_pointwise(g1: Seq<Seq<Tile>>, g2: Seq<Seq<Tile>>)
    requires
        g1.len() == g2.len(),
        forall|i: int| 0 <= i < g1.len() ==> #[trigger] g1[i].len() == g2[i].len(),
        forall|i: int, j: int|
            0 <= i < g1.len() && 0 <= j < g1[i].len() ==> g1[i][j].has_bomb == #[trigger] g2[i][j].has_bomb,
    ensures
        grid_bombs(g1) == grid_bombs(g2),
    decreases g1.len(),
{
    if g1.len() > 0 {
        lemma_grid_bombs_pointwise(g1.drop_last(), g2.drop_last());
        lemma_row_bombs_pointwise(g1.last(), g2.last());
    }
}

/// Adjacency counts depend only on the shape of the grid and on where the
/// bombs sit, never on visibility or on previously stored counts.
pub proof fn lemma_adj_count_pointwise(g1: Seq<Seq<Tile>>, g2: Seq<Seq<Tile>>, i: int, j: int)
    requires
        g1.len() == g2.len(),
        forall|k: int| 0 <= k < g1.len() ==> #[trigger] g1[k].len() == g2[k].len(),
        forall|k: int, l: int|
            0 <= k < g1.len() && 0 <= l < g1[k].len() ==> g1[k][l].has_bomb == #[trigger] g2[k][l].has_bomb,
    ensures
        adj_count(g1, i, j) == adj_count(g2, i, j),
{
    assert forall|x: int, y: int| bomb_at(g1, x, y) == bomb_at(g2, x, y) by {
        if 0 <= x < g1.len() {
            assert(g1[x].len() == g2[x].len());
        }
    }
}

} // verus!
