//! The owning grid container, tile addressing, and text rendering.

use vstd::prelude::*;

use crate::counting::{adj_count, lemma_adj_count_pointwise, lemma_adj_count_range};
use crate::tile::{char_of_tile, Tile, Visibility};

verus! {

/// The location of a tile in the grid.
///
/// A point carries no validity of its own; it is checked against a
/// particular grid's bounds at the point of use.
#[derive(Debug, Clone, Copy, PartialEq, Eq, Structural)]
pub struct Point {
    pub row: usize,
    pub col: usize,
}

/// A non-empty rectangle: at least one row, at least one column, and every
/// row as long as the first.
pub open spec fn rect_nonempty(g: Seq<Seq<Tile>>) -> bool {
    &&& g.len() > 0
    &&& g[0].len() > 0
    &&& forall|i: int| 0 <= i < g.len() ==> #[trigger] g[i].len() == g[0].len()
}

/// Every stored adjacency count agrees with the grid's bomb placement.
pub open spec fn tiles_consistent(g: Seq<Seq<Tile>>) -> bool {
    forall|i: int, j: int|
        #![trigger g[i][j]]
        0 <= i < g.len() && 0 <= j < g[i].len() ==> g[i][j].adj_bombs == adj_count(g, i, j)
}

/// Every tile of the grid is revealed.
pub open spec fn all_revealed(g: Seq<Seq<Tile>>) -> bool {
    forall|i: int, j: int|
        #![trigger g[i][j]]
        0 <= i < g.len() && 0 <= j < g[i].len() ==> g[i][j].visibility == Visibility::Revealed
}

/// The same tile with its visibility forced to `Revealed`.
pub open spec fn reveal_spec(t: Tile) -> Tile {
    Tile { visibility: Visibility::Revealed, ..t }
}

/// The mathematical view of a vector of tile rows.
pub open spec fn views_of_rows(rows: Seq<Vec<Tile>>) -> Seq<Seq<Tile>> {
    rows.map_values(|r: Vec<Tile>| r@)
}

/// One rendered row: the display character of each tile in order.
pub open spec fn render_row(r: Seq<Tile>) -> Seq<char> {
    r.map_values(|t: Tile| char_of_tile(t))
}

/// The rendered grid: one character per tile, rows joined by a newline,
/// no trailing newline.
pub open spec fn render(g: Seq<Seq<Tile>>) -> Seq<char>
    decreases g.len(),
{
    if g.len() == 0 {
        Seq::empty()
    } else if g.len() == 1 {
        render_row(g[0])
    } else {
        render(g.drop_last()) + seq!['\n'] + render_row(g.last())
    }
}

/// The grid of tiles in a game: an explicit owning container, indexed only
/// through its bounds-checked accessors.
#[derive(Debug)]
pub struct Grid {
    tiles: Vec<Vec<Tile>>,
}

impl View for Grid {
    type V = Seq<Seq<Tile>>;

    closed spec fn view(&self) -> Seq<Seq<Tile>> {
        views_of_rows(self.tiles@)
    }
}

/// Relies on String::push: appends the given character to the end of the
/// string.
#[verifier::external_body]
fn push_char(s: &mut String, c: char)
    ensures
        final(s)@ == old(s)@.push(c),
{
    s.push(c);
}

impl Grid {
    /// A valid grid: a non-empty rectangle whose stored adjacency counts
    /// agree with its bomb placement.
    pub open spec fn wf(&self) -> bool {
        rect_nonempty(self@) && tiles_consistent(self@)
    }

    /// Wrap a fully built tile matrix.
    ///
    /// The matrix must already be a consistent non-empty rectangle; the
    /// parser establishes that before wrapping.
    pub fn new(tiles: Vec<Vec<Tile>>) -> (g: Grid)
        requires
            rect_nonempty(views_of_rows(tiles@)),
            tiles_consistent(views_of_rows(tiles@)),
        ensures
            g@ == views_of_rows(tiles@),
            g.wf(),
    {
        Grid { tiles }
    }

    /// The number of rows.
    pub fn row_count(&self) -> (n: usize)
        ensures
            n == self@.len(),
    {
        self.tiles.len()
    }

    /// The number of columns, i.e. the length every row shares.
    pub fn col_count(&self) -> (n: usize)
        requires
            self@.len() > 0,
        ensures
            n == self@[0].len(),
    {
        self.tiles[0].len()
    }

    /// The tile at `(row, col)`; the indices must be in range.
    pub fn tile_at(&self, row: usize, col: usize) -> (t: Tile)
        requires
            row < self@.len(),
            col < self@[row as int].len(),
        ensures
            t == self@[row as int][col as int],
    {
        self.tiles[row][col]
    }

    /// Mark the one tile at `(row, col)` as revealed, leaving every other
    /// tile and the tile's own bomb and adjacency data untouched.
    pub(crate) fn reveal_tile(&mut self, row: usize, col: usize)
        requires
            old(self).wf(),
            row < old(self)@.len(),
            col < old(self)@[row as int].len(),
        ensures
            final(self).wf(),
            final(self)@ == old(self)@.update(
                row as int,
                old(self)@[row as int].update(col as int, reveal_spec(old(self)@[row as int][col as int])),
            ),
    {
        let t = self.tiles[row][col];
        self.tiles[row][col] = Tile {
            has_bomb: t.has_bomb,
            adj_bombs: t.adj_bombs,
            visibility: Visibility::Revealed,
        };
        proof {
            let gold = old(self)@;
            let gnew = self@;
            assert(gnew =~= gold.update(
                row as int,
                gold[row as int].update(col as int, reveal_spec(gold[row as int][col as int])),
            ));
            assert forall|i: int, j: int|
                #![trigger gnew[i][j]]
                0 <= i < gnew.len() && 0 <= j < gnew[i].len() implies gnew[i][j].adj_bombs
                == adj_count(gnew, i, j) by {
                lemma_adj_count_pointwise(gold, gnew, i, j);
            }
        }
    }

    /// Mark all tiles as revealed; e.g. when the game ends.
    pub fn reveal_all(&mut self)
        requires
            old(self).wf(),
        ensures
            final(self).wf(),
            final(self)@.len() == old(self)@.len(),
            forall|i: int|
                0 <= i < old(self)@.len() ==> #[trigger] final(self)@[i].len() == old(self)@[i].len(),
            forall|i: int, j: int|
                #![trigger final(self)@[i][j]]
                0 <= i < old(self)@.len() && 0 <= j < old(self)@[i].len() ==> final(self)@[i][j]
                    == reveal_spec(old(self)@[i][j]),
    {
        let h = self.tiles.len();
        let mut i: usize = 0;
        while i < h
            invariant
                i <= h,
                h == self@.len(),
                self@.len() == old(self)@.len(),
                forall|k: int| 0 <= k < h ==> #[trigger] self@[k].len() == old(self)@[k].len(),
                forall|k: int, l: int|
                    #![trigger self@[k][l]]
                    0 <= k < i && 0 <= l < self@[k].len() ==> self@[k][l] == reveal_spec(
                        old(self)@[k][l],
                    ),
                forall|k: int, l: int|
                    #![trigger self@[k][l]]
                    i <= k < h && 0 <= l < self@[k].len() ==> self@[k][l] == old(self)@[k][l],
            decreases h - i,
        {
            let w = self.tiles[i].len();
            let mut j: usize = 0;
            while j < w
                invariant
                    i < h,
                    j <= w,
                    h == self@.len(),
                    self@.len() == old(self)@.len(),
                    w == self@[i as int].len(),
                    forall|k: int| 0 <= k < h ==> #[trigger] self@[k].len() == old(self)@[k].len(),
                    forall|k: int, l: int|
                        #![trigger self@[k][l]]
                        0 <= k < i && 0 <= l < self@[k].len() ==> self@[k][l] == reveal_spec(
                            old(self)@[k][l],
                        ),
                    forall|l: int|
                        0 <= l < j ==> #[trigger] self@[i as int][l] == reveal_spec(
                            old(self)@[i as int][l],
                        ),
                    forall|l: int|
                        j <= l < w ==> #[trigger] self@[i as int][l] == old(self)@[i as int][l],
                    forall|k: int, l: int|
                        #![trigger self@[k][l]]
                        i < k < h && 0 <= l < self@[k].len() ==> self@[k][l] == old(self)@[k][l],
                decreases w - j,
            {
                let ghost prev = self@;
                let t = self.tiles[i][j];
                self.tiles[i][j] = Tile {
                    has_bomb: t.has_bomb,
                    adj_bombs: t.adj_bombs,
                    visibility: Visibility::Revealed,
                };
                proof {
                    assert(self@ =~~= prev.update(
                        i as int,
                        prev[i as int].update(j as int, reveal_spec(prev[i as int][j as int])),
                    ));
                }
                j += 1;
            }
            i += 1;
        }
        proof {
            let gold = old(self)@;
            let gnew = self@;
            assert forall|i: int, j: int|
                #![trigger gnew[i][j]]
                0 <= i < gnew.len() && 0 <= j < gnew[i].len() implies gnew[i][j].adj_bombs
                == adj_count(gnew, i, j) by {
                lemma_adj_count_pointwise(gold, gnew, i, j);
            }
        }
    }

    /// New-line separated rows of display characters, with no trailing
    /// newline. See `Tile::to_char` for the character of each tile.
    pub fn to_string(&self) -> (s: String)
        requires
            self.wf(),
        ensures
            s@ == render(self@),
    {
        let ghost g = self@;
        let mut s = String::new();
        let h = self.tiles.len();
        let mut i: usize = 0;
        while i < h
            invariant
                i <= h,
                h == g.len(),
                g == self@,
                self.wf(),
                s@ == render(g.take(i as int)),
            decreases h - i,
        {
            if i != 0 {
                push_char(&mut s, '\n');
            }
            let w = self.tiles[i].len();
            let mut j: usize = 0;
            while j < w
                invariant
                    i < h,
                    j <= w,
                    h == g.len(),
                    g == self@,
                    self.wf(),
                    w == g[i as int].len(),
                    s@ == render(g.take(i as int)) + (if i == 0 {
                        Seq::<char>::empty()
                    } else {
                        seq!['\n']
                    }) + render_row(g[i as int].take(j as int)),
                decreases w - j,
            {
                let t = self.tiles[i][j];
                proof {
                    lemma_adj_count_range(g, i as int, j as int);
                }
                let c = t.to_char();
                push_char(&mut s, c);
                proof {
                    let row = g[i as int];
                    assert(render_row(row.take(j as int + 1)) =~= render_row(
                        row.take(j as int),
                    ).push(char_of_tile(t)));
                    assert(s@ =~= render(g.take(i as int)) + (if i == 0 {
                        Seq::<char>::empty()
                    } else {
                        seq!['\n']
                    }) + render_row(row.take(j as int + 1)));
                }
                j += 1;
            }
            proof {
                let row = g[i as int];
                assert(row.take(w as int) =~= row);
                if i == 0 {
                    assert(render(g.take(1)) == render_row(g.take(1)[0]));
                    assert(s@ =~= render(g.take(1)));
                } else {
                    let pre = g.take(i as int + 1);
                    assert(pre.drop_last() =~= g.take(i as int));
                    assert(render(pre) == render(pre.drop_last()) + seq!['\n'] + render_row(
                        pre.last(),
                    ));
                    assert(s@ =~= render(g.take(i as int + 1)));
                }
            }
            i += 1;
        }
        proof {
            assert(g.take(h as int) =~= g);
        }
        s
    }
}

} // verus!
