//! Rendering laws: what the display text of a grid looks like.

use vstd::prelude::*;

use crate::grid::{all_revealed, rect_nonempty, render, render_row};
use crate::tile::{char_of_tile, Tile, Visibility};

verus! {

/// One character per tile: the rendering of a non-empty rectangular grid
/// of height `h` and width `w` has exactly `h * (w + 1) - 1` characters
/// (the rows separated by single newlines, no trailing newline), and the
/// display character of the tile at `(i, j)` stands at position
/// `i * (w + 1) + j`.
pub proof fn lemma_render_shape(g: Seq<Seq<Tile>>)
    requires
        rect_nonempty(g),
    ensures
        render(g).len() == g.len() * (g[0].len() + 1) - 1,
        forall|i: int, j: int|
            #![trigger g[i][j]]
            0 <= i < g.len() && 0 <= j < g[0].len() ==> render(g)[i * (g[0].len() + 1) + j]
                == char_of_tile(g[i][j]),
    decreases g.len(),
{
    let n = g.len() as int;
    let w = g[0].len() as int;
    if n == 1 {
        assert(render(g) == render_row(g[0]));
        assert forall|i: int, j: int|
            #![trigger g[i][j]]
            0 <= i < n && 0 <= j < w implies render(g)[i * (w + 1) + j] == char_of_tile(
            g[i][j],
        ) by {
            assert(i == 0);
            assert(i * (w + 1) + j == j);
        }
    } else {
        let gd = g.drop_last();
        assert(rect_nonempty(gd));
        lemma_render_shape(gd);
        assert(render(g) == render(gd) + seq!['\n'] + render_row(g.last()));
        assert((n - 1) * (w + 1) - 1 + 1 + w == n * (w + 1) - 1) by (nonlinear_arith);
        assert forall|i: int, j: int|
            #![trigger g[i][j]]
            0 <= i < n && 0 <= j < w implies render(g)[i * (w + 1) + j] == char_of_tile(
            g[i][j],
        ) by {
            if i < n - 1 {
                assert(0 <= i * (w + 1) + j < (n - 1) * (w + 1) - 1) by (nonlinear_arith)
                    requires
                        0 <= i <= n - 2,
                        0 <= j < w,
                ;
                assert(render(g)[i * (w + 1) + j] == render(gd)[i * (w + 1) + j]);
                assert(gd[i] == g[i]);
            } else {
                assert(i == n - 1);
                assert(i * (w + 1) + j == ((n - 1) * (w + 1) - 1) + 1 + j) by (nonlinear_arith)
                    requires
                        i == n - 1,
                ;
                assert(render(g)[i * (w + 1) + j] == render_row(g.last())[j]);
                assert(g.last() == g[n - 1]);
            }
        }
    }
}

/// A fully revealed row renders without hidden or flag markers.
proof fn lemma_render_row_no_markers(r: Seq<Tile>)
    requires
        forall|j: int| 0 <= j < r.len() ==> #[trigger] r[j].visibility == Visibility::Revealed,
    ensures
        forall|k: int|
            0 <= k < render_row(r).len() ==> #[trigger] render_row(r)[k] != '.' && render_row(
                r,
            )[k] != '*',
{
    assert forall|k: int|
        0 <= k < render_row(r).len() implies #[trigger] render_row(r)[k] != '.' && render_row(
        r,
    )[k] != '*' by {
        assert(render_row(r)[k] == char_of_tile(r[k]));
        assert(r[k].visibility == Visibility::Revealed);
    }
}

/// A fully revealed, bomb-free row renders without the bomb marker either.
proof fn lemma_render_row_bomb_free(r: Seq<Tile>)
    requires
        forall|j: int| 0 <= j < r.len() ==> #[trigger] r[j].visibility == Visibility::Revealed,
        forall|j: int| 0 <= j < r.len() ==> !(#[trigger] r[j].has_bomb),
    ensures
        forall|k: int| 0 <= k < render_row(r).len() ==> #[trigger] render_row(r)[k] != '#',
{
    assert forall|k: int|
        0 <= k < render_row(r).len() implies #[trigger] render_row(r)[k] != '#' by {
        assert(render_row(r)[k] == char_of_tile(r[k]));
        assert(r[k].visibility == Visibility::Revealed);
        assert(!r[k].has_bomb);
    }
}

/// Once every tile is revealed, the rendering holds no hidden marker `.`
/// and no flag marker `*` anywhere: each character is either the newline
/// separator or the display character of a revealed tile, which is the
/// bomb marker, a blank, or a digit.
pub proof fn lemma_render_no_markers(g: Seq<Seq<Tile>>)
    requires
        rect_nonempty(g),
        all_revealed(g),
    ensures
        forall|k: int|
            0 <= k < render(g).len() ==> #[trigger] render(g)[k] != '.' && render(g)[k] != '*',
    decreases g.len(),
{
    if g.len() == 1 {
        lemma_render_row_no_markers(g[0]);
        assert(render(g) == render_row(g[0]));
    } else {
        let gd = g.drop_last();
        assert(rect_nonempty(gd));
        assert(all_revealed(gd));
        lemma_render_no_markers(gd);
        lemma_render_row_no_markers(g.last());
        assert(render(g) == render(gd) + seq!['\n'] + render_row(g.last()));
        assert forall|k: int|
            0 <= k < render(g).len() implies #[trigger] render(g)[k] != '.' && render(g)[k]
            != '*' by {
            let a = render(gd);
            let b = seq!['\n'];
            let c = render_row(g.last());
            if k < a.len() {
                assert(render(g)[k] == a[k]);
            } else if k < a.len() + 1 {
                assert(render(g)[k] == '\n');
            } else {
                assert(render(g)[k] == c[k - a.len() - 1]);
            }
        }
    }
}

/// On a grid without any bomb, a full reveal renders without the bomb
/// marker `#` as well: every character is the newline separator, a blank,
/// or a digit.
pub proof fn lemma_render_bomb_free(g: Seq<Seq<Tile>>)
    requires
        rect_nonempty(g),
        all_revealed(g),
        forall|i: int, j: int|
            #![trigger g[i][j]]
            0 <= i < g.len() && 0 <= j < g[i].len() ==> !g[i][j].has_bomb,
    ensures
        forall|k: int| 0 <= k < render(g).len() ==> #[trigger] render(g)[k] != '#',
    decreases g.len(),
{
    if g.len() == 1 {
        lemma_render_row_bomb_free(g[0]);
        assert(render(g) == render_row(g[0]));
    } else {
        let gd = g.drop_last();
        assert(rect_nonempty(gd));
        assert(all_revealed(gd));
        lemma_render_bomb_free(gd);
        lemma_render_row_bomb_free(g.last());
        assert(render(g) == render(gd) + seq!['\n'] + render_row(g.last()));
        assert forall|k: int| 0 <= k < render(g).len() implies #[trigger] render(g)[k] != '#' by {
            let a = render(gd);
            let c = render_row(g.last());
            if k < a.len() {
                assert(render(g)[k] == a[k]);
            } else if k < a.len() + 1 {
                assert(render(g)[k] == '\n');
            } else {
                assert(render(g)[k] == c[k - a.len() - 1]);
            }
        }
    }
}

} // verus!
