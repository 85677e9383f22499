//! Parsing a textual minefield description into a validated grid.
//!
//! The input is an ordered sequence of text lines. Exactly two characters
//! are recognized: `#` for a bomb and `.` for an empty cell. The grid must
//! be a non-empty rectangle; any other input is rejected atomically with a
//! typed error that names the offending character or row.

use vstd::prelude::*;

use crate::counting::{
    adj_count, grid_bombs, lemma_adj_count_pointwise, lemma_grid_bombs_pointwise, row_bombs,
};
use crate::grid::{rect_nonempty, tiles_consistent, views_of_rows, Grid};
use crate::tile::{Tile, Visibility};

verus! {

/// Why a textual grid was rejected.
///
/// `InvalidCharacter` carries the first unrecognized character of the first
/// offending row; `JaggedRow` carries the expected row length, the index of
/// the first row of a different length, and that row's actual length;
/// `EmptyGrid` reports an input with no rows or no columns.
#[derive(Debug, Clone, Copy, PartialEq, Eq, Structural)]
pub enum ParseError {
    InvalidCharacter(char),
    JaggedRow { expected_len: usize, row_index: usize, actual_len: usize },
    EmptyGrid,
}

/// Return value of [`parse_grid`].
pub struct ParseResult {
    pub grid: Grid,
    pub num_bombs: u32,
}

/// Does this input character place a bomb?
pub open spec fn bomb_char(c: char) -> bool {
    c == '#'
}

/// Is this one of the two recognized input characters?
pub open spec fn grid_char(c: char) -> bool {
    c == '#' || c == '.'
}

/// Every character of the row is recognized.
pub open spec fn row_ok(l: Seq<char>) -> bool {
    forall|j: int| 0 <= j < l.len() ==> grid_char(#[trigger] l[j])
}

/// The first `n` rows are all valid and as long as the first row.
pub open spec fn prefix_ok(ls: Seq<Seq<char>>, n: int) -> bool {
    forall|k: int|
        #![trigger ls[k]]
        0 <= k < n ==> ls[k].len() == ls[0].len() && row_ok(ls[k])
}

/// The whole input parses: at least one row, at least one column, every
/// row valid and of the same length.
pub open spec fn lines_ok(ls: Seq<Seq<char>>) -> bool {
    ls.len() > 0 && ls[0].len() > 0 && prefix_ok(ls, ls.len() as int)
}

/// `(i, j)` locates the first unrecognized character: rows before `i` are
/// valid and of the expected length, and the characters of row `i` before
/// `j` are all recognized.
pub open spec fn invalid_char_at(ls: Seq<Seq<char>>, i: int, j: int) -> bool {
    &&& 0 <= i < ls.len()
    &&& prefix_ok(ls, i)
    &&& 0 <= j < ls[i].len()
    &&& !grid_char(ls[i][j])
    &&& forall|l: int| 0 <= l < j ==> grid_char(#[trigger] ls[i][l])
}

/// The parse fails with `InvalidCharacter(c)` exactly when `c` stands at
/// the position `invalid_char_at` describes.
pub open spec fn invalid_char_cond(ls: Seq<Seq<char>>, c: char) -> bool {
    exists|i: int, j: int| invalid_char_at(ls, i, j) && ls[i][j] == c
}

/// The parse fails with `JaggedRow` exactly when `row_index` is the first
/// row whose length differs from the first row's, every earlier row being
/// valid and of the expected length, and the offending row itself holding
/// only recognized characters (an unrecognized character is reported
/// first).
pub open spec fn jagged_cond(
    ls: Seq<Seq<char>>,
    expected_len: int,
    row_index: int,
    actual_len: int,
) -> bool {
    &&& 0 < row_index < ls.len()
    &&& prefix_ok(ls, row_index)
    &&& row_ok(ls[row_index])
    &&& ls[row_index].len() != ls[0].len()
    &&& expected_len == ls[0].len()
    &&& actual_len == ls[row_index].len()
}

/// The parse fails with `EmptyGrid` exactly when the input has no rows at
/// all, or only rows without any columns.
pub open spec fn empty_cond(ls: Seq<Seq<char>>) -> bool {
    ls.len() == 0 || forall|i: int| 0 <= i < ls.len() ==> #[trigger] ls[i].len() == 0
}

/// The exact condition under which the parser returns each error.
pub open spec fn error_cond(ls: Seq<Seq<char>>, e: ParseError) -> bool {
    match e {
        ParseError::InvalidCharacter(c) => invalid_char_cond(ls, c),
        ParseError::JaggedRow { expected_len, row_index, actual_len } => jagged_cond(
            ls,
            expected_len as int,
            row_index as int,
            actual_len as int,
        ),
        ParseError::EmptyGrid => empty_cond(ls),
    }
}

/// The character sequences of a vector of text lines.
pub open spec fn views_of(lines: Seq<String>) -> Seq<Seq<char>> {
    lines.map_values(|s: String| s@)
}

/// The parsed grid mirrors the input lines cell for cell: same shape, a
/// bomb exactly under each bomb character, every tile still hidden, and
/// every adjacency count correct.
pub open spec fn grid_matches_lines(g: Seq<Seq<Tile>>, ls: Seq<Seq<char>>) -> bool {
    &&& g.len() == ls.len()
    &&& forall|i: int| 0 <= i < g.len() ==> #[trigger] g[i].len() == ls[i].len()
    &&& forall|i: int, j: int|
        #![trigger g[i][j]]
        0 <= i < g.len() && 0 <= j < g[i].len() ==> {
            &&& g[i][j].has_bomb == bomb_char(ls[i][j])
            &&& g[i][j].visibility == Visibility::Hidden
            &&& g[i][j].adj_bombs == adj_count(g, i, j)
        }
}

/// How many bombs are adjacent to the tile at `(i, j)`? The indices must
/// be in range of the rectangular matrix.
///
/// The tile itself is not included, even if it holds a bomb.
fn adj_bombs(grid: &Vec<Vec<Tile>>, i: usize, j: usize) -> (n: u32)
    requires
        rect_nonempty(views_of_rows(grid@)),
        i < grid@.len(),
        j < views_of_rows(grid@)[0].len(),
    ensures
        n == adj_count(views_of_rows(grid@), i as int, j as int),
{
    let ghost g = views_of_rows(grid@);
    let h = grid.len();
    let w = grid[0].len();
    proof {
        assert forall|k: int| 0 <= k < grid@.len() implies #[trigger] grid@[k]@.len() == w by {
            assert(g[k] == grid@[k]@);
        }
    }
    let mut bombs: u32 = 0;

    // Check all 8 adjacent cells for bombs, clipped to the grid bounds.
    if i > 0 {
        if j > 0 && grid[i - 1][j - 1].has_bomb {
            bombs = bombs + 1;
        }
        if grid[i - 1][j].has_bomb {
            bombs = bombs + 1;
        }
        if j + 1 < w && grid[i - 1][j + 1].has_bomb {
            bombs = bombs + 1;
        }
    }
    if j > 0 && grid[i][j - 1].has_bomb {
        bombs = bombs + 1;
    }
    if j + 1 < w && grid[i][j + 1].has_bomb {
        bombs = bombs + 1;
    }
    if i + 1 < h {
        if j > 0 && grid[i + 1][j - 1].has_bomb {
            bombs = bombs + 1;
        }
        if grid[i + 1][j].has_bomb {
            bombs = bombs + 1;
        }
        if j + 1 < w && grid[i + 1][j + 1].has_bomb {
            bombs = bombs + 1;
        }
    }
    bombs
}

/// Fill every tile with its correct `adj_bombs` value.
///
/// Bomb placement and visibility are left untouched, so the adjacency
/// counts are equally correct for the matrix before and after the pass.
fn compute_adj_bombs(grid: &mut Vec<Vec<Tile>>)
    requires
        rect_nonempty(views_of_rows(old(grid)@)),
    ensures
        views_of_rows(final(grid)@).len() == views_of_rows(old(grid)@).len(),
        forall|i: int|
            0 <= i < views_of_rows(old(grid)@).len() ==> #[trigger] views_of_rows(final(grid)@)[i].len()
                == views_of_rows(old(grid)@)[i].len(),
        forall|i: int, j: int|
            #![trigger views_of_rows(final(grid)@)[i][j]]
            0 <= i < views_of_rows(old(grid)@).len() && 0 <= j < views_of_rows(old(grid)@)[i].len()
                ==> {
                &&& views_of_rows(final(grid)@)[i][j].has_bomb == views_of_rows(old(grid)@)[i][j].has_bomb
                &&& views_of_rows(final(grid)@)[i][j].visibility == views_of_rows(
                    old(grid)@,
                )[i][j].visibility
                &&& views_of_rows(final(grid)@)[i][j].adj_bombs == adj_count(
                    views_of_rows(old(grid)@),
                    i,
                    j,
                )
            },
        tiles_consistent(views_of_rows(final(grid)@)),
{
    let ghost orig = views_of_rows(old(grid)@);
    let h = grid.len();
    let w = grid[0].len();
    let mut i: usize = 0;
    while i < h
        invariant
            i <= h,
            h == grid@.len(),
            w == views_of_rows(grid@)[0].len(),
            rect_nonempty(orig),
            orig.len() == h,
            orig[0].len() == w,
            views_of_rows(grid@).len() == h,
            forall|k: int| 0 <= k < h ==> #[trigger] views_of_rows(grid@)[k].len() == orig[k].len(),
            forall|k: int, l: int|
                #![trigger views_of_rows(grid@)[k][l]]
                0 <= k < h && 0 <= l < orig[k].len() ==> {
                    &&& views_of_rows(grid@)[k][l].has_bomb == orig[k][l].has_bomb
                    &&& views_of_rows(grid@)[k][l].visibility == orig[k][l].visibility
                },
            forall|k: int, l: int|
                #![trigger views_of_rows(grid@)[k][l]]
                0 <= k < i && 0 <= l < orig[k].len() ==> views_of_rows(grid@)[k][l].adj_bombs
                    == adj_count(orig, k, l),
            forall|k: int, l: int|
                #![trigger views_of_rows(grid@)[k][l]]
                i <= k < h && 0 <= l < orig[k].len() ==> views_of_rows(grid@)[k][l].adj_bombs
                    == orig[k][l].adj_bombs,
        decreases h - i,
    {
        let mut j: usize = 0;
        while j < w
            invariant
                i < h,
                j <= w,
                h == grid@.len(),
                w == views_of_rows(grid@)[0].len(),
                rect_nonempty(orig),
                orig.len() == h,
                orig[0].len() == w,
                views_of_rows(grid@).len() == h,
                forall|k: int| 0 <= k < h ==> #[trigger] views_of_rows(grid@)[k].len() == orig[k].len(),
                forall|k: int, l: int|
                    #![trigger views_of_rows(grid@)[k][l]]
                    0 <= k < h && 0 <= l < orig[k].len() ==> {
                        &&& views_of_rows(grid@)[k][l].has_bomb == orig[k][l].has_bomb
                        &&& views_of_rows(grid@)[k][l].visibility == orig[k][l].visibility
                    },
                forall|k: int, l: int|
                    #![trigger views_of_rows(grid@)[k][l]]
                    0 <= k < i && 0 <= l < orig[k].len() ==> views_of_rows(grid@)[k][l].adj_bombs
                        == adj_count(orig, k, l),
                forall|l: int|
                    0 <= l < j ==> #[trigger] views_of_rows(grid@)[i as int][l].adj_bombs
                        == adj_count(orig, i as int, l),
                forall|l: int|
                    j <= l < w ==> #[trigger] views_of_rows(grid@)[i as int][l].adj_bombs
                        == orig[i as int][l].adj_bombs,
                forall|k: int, l: int|
                    #![trigger views_of_rows(grid@)[k][l]]
                    i < k < h && 0 <= l < orig[k].len() ==> views_of_rows(grid@)[k][l].adj_bombs
                        == orig[k][l].adj_bombs,
            decreases w - j,
        {
            proof {
                assert(rect_nonempty(views_of_rows(grid@)));
            }
            let n = adj_bombs(grid, i, j);
            proof {
                lemma_adj_count_pointwise(views_of_rows(grid@), orig, i as int, j as int);
            }
            let ghost prev = views_of_rows(grid@);
            let t = grid[i][j];
            grid[i][j] = Tile { has_bomb: t.has_bomb, adj_bombs: n, visibility: t.visibility };
            proof {
                assert(views_of_rows(grid@) =~~= prev.update(
                    i as int,
                    prev[i as int].update(
                        j as int,
                        Tile { has_bomb: t.has_bomb, adj_bombs: n, visibility: t.visibility },
                    ),
                ));
            }
            j += 1;
        }
        i += 1;
    }
    proof {
        let gnew = views_of_rows(grid@);
        assert forall|i: int, j: int|
            #![trigger gnew[i][j]]
            0 <= i < gnew.len() && 0 <= j < gnew[i].len() implies gnew[i][j].adj_bombs == adj_count(
            gnew,
            i,
            j,
        ) by {
            lemma_adj_count_pointwise(orig, gnew, i, j);
        }
    }
}

/// A parseable input satisfies no failure condition: together with the
/// contract of [`parse_grid`], a valid input is never rejected.
pub proof fn lemma_lines_ok_excludes_errors(ls: Seq<Seq<char>>, e: ParseError)
    requires
        lines_ok(ls),
    ensures
        !error_cond(ls, e),
{
    if error_cond(ls, e) {
        match e {
            ParseError::InvalidCharacter(c) => {
                let (i, j): (int, int) = choose|i: int, j: int|
                    invalid_char_at(ls, i, j) && ls[i][j] == c;
                assert(row_ok(ls[i]));
            },
            ParseError::JaggedRow { expected_len, row_index, actual_len } => {
                assert(ls[row_index as int].len() == ls[0].len());
            },
            ParseError::EmptyGrid => {
                assert(ls[0].len() == 0);
            },
        }
    }
}

/// At most one failure condition, with one payload, can hold of a given
/// input: the error that [`parse_grid`] returns is determined by the input
/// alone.
pub proof fn lemma_error_conds_exclusive(ls: Seq<Seq<char>>, e1: ParseError, e2: ParseError)
    requires
        error_cond(ls, e1),
        error_cond(ls, e2),
    ensures
        e1 == e2,
{
    if e1 is EmptyGrid {
        lemma_empty_cond_excludes(ls, e1, e2);
    }
    if e2 is EmptyGrid {
        lemma_empty_cond_excludes(ls, e2, e1);
    }
    match (e1, e2) {
        (ParseError::InvalidCharacter(c1), ParseError::InvalidCharacter(c2)) => {
            let (i1, j1): (int, int) = choose|i: int, j: int|
                invalid_char_at(ls, i, j) && ls[i][j] == c1;
            let (i2, j2): (int, int) = choose|i: int, j: int|
                invalid_char_at(ls, i, j) && ls[i][j] == c2;
            if i1 < i2 {
                assert(row_ok(ls[i1]));
            }
            if i2 < i1 {
                assert(row_ok(ls[i2]));
            }
            assert(i1 == i2);
            assert(j1 == j2);
        },
        (ParseError::InvalidCharacter(c), ParseError::JaggedRow { expected_len, row_index, actual_len }) => {
            lemma_invalid_excludes_jagged(ls, c, expected_len as int, row_index as int, actual_len as int);
        },
        (ParseError::JaggedRow { expected_len, row_index, actual_len }, ParseError::InvalidCharacter(c)) => {
            lemma_invalid_excludes_jagged(ls, c, expected_len as int, row_index as int, actual_len as int);
        },
        (
            ParseError::JaggedRow { expected_len: x1, row_index: r1, actual_len: a1 },
            ParseError::JaggedRow { expected_len: x2, row_index: r2, actual_len: a2 },
        ) => {
            if r1 < r2 {
                assert(ls[r1 as int].len() == ls[0].len());
            }
            if r2 < r1 {
                assert(ls[r2 as int].len() == ls[0].len());
            }
            assert(r1 == r2);
        },
        _ => {},
    }
}

/// An input that is empty in the sense of `empty_cond` satisfies neither of
/// the other two failure conditions.
proof fn lemma_empty_cond_excludes(ls: Seq<Seq<char>>, e1: ParseError, e2: ParseError)
    requires
        error_cond(ls, e1),
        error_cond(ls, e2),
        e1 is EmptyGrid,
    ensures
        e2 is EmptyGrid,
{
    if !(e2 is EmptyGrid) {
        match e2 {
            ParseError::InvalidCharacter(c) => {
                let (i, j): (int, int) = choose|i: int, j: int|
                    invalid_char_at(ls, i, j) && ls[i][j] == c;
                assert(ls[i].len() == 0);
            },
            ParseError::JaggedRow { expected_len, row_index, actual_len } => {
                assert(ls[row_index as int].len() == 0);
                assert(ls[0].len() == 0);
            },
            ParseError::EmptyGrid => {},
        }
    }
}

/// An unrecognized character and a jagged row cannot both be the first
/// failure of the same input.
proof fn lemma_invalid_excludes_jagged(ls: Seq<Seq<char>>, c: char, x: int, r: int, a: int)
    requires
        invalid_char_cond(ls, c),
    ensures
        !jagged_cond(ls, x, r, a),
{
    if jagged_cond(ls, x, r, a) {
        let (i, j): (int, int) = choose|i: int, j: int| invalid_char_at(ls, i, j) && ls[i][j] == c;
        if i < r {
            assert(row_ok(ls[i]));
        } else if i == r {
            assert(row_ok(ls[r]));
        } else {
            assert(ls[r].len() == ls[0].len());
        }
    }
}

/// Parse text lines into a grid. The grid must be non-empty and
/// rectangular.
///
/// Valid input characters are `#` or `.` for bomb / empty. Any other
/// character, a row whose length differs from the first row's, or an input
/// without rows or columns fails the whole parse with the matching
/// [`ParseError`]; the result also reports the total number of bombs.
pub fn parse_grid(lines: &Vec<String>) -> (r: Result<ParseResult, ParseError>)
    requires
        lines@.len() == 0 || lines@.len() * lines@[0]@.len() <= u32::MAX,
    ensures
        r is Ok <==> lines_ok(views_of(lines@)),
        r is Ok ==> {
            let pr = r->Ok_0;
            &&& pr.grid.wf()
            &&& grid_matches_lines(pr.grid@, views_of(lines@))
            &&& pr.num_bombs == grid_bombs(pr.grid@)
            &&& pr.num_bombs <= views_of(lines@).len() * views_of(lines@)[0].len()
        },
        r is Err ==> error_cond(views_of(lines@), r->Err_0),
{
    let ghost ls = views_of(lines@);
    let n = lines.len();
    let mut tiles: Vec<Vec<Tile>> = Vec::new();
    let mut num_bombs: u32 = 0;
    let mut i: usize = 0;
    while i < n
        invariant
            i <= n,
            n == ls.len(),
            ls == views_of(lines@),
            n == 0 || n * ls[0].len() <= u32::MAX,
            tiles@.len() == i,
            prefix_ok(ls, i as int),
            forall|k: int| 0 <= k < i ==> #[trigger] tiles@[k]@.len() == ls[k].len(),
            forall|k: int, l: int|
                #![trigger tiles@[k]@[l]]
                0 <= k < i && 0 <= l < ls[k].len() ==> {
                    &&& tiles@[k]@[l].has_bomb == bomb_char(ls[k][l])
                    &&& tiles@[k]@[l].visibility == Visibility::Hidden
                    &&& tiles@[k]@[l].adj_bombs == 0
                },
            num_bombs == grid_bombs(views_of_rows(tiles@)),
            i == 0 ==> num_bombs == 0,
            i > 0 ==> num_bombs <= i * ls[0].len(),
        decreases n - i,
    {
        let line = &lines[i];
        let row_len = line.as_str().unicode_len();
        let mut row: Vec<Tile> = Vec::new();
        let mut row_bomb_count: usize = 0;
        let mut j: usize = 0;
        while j < row_len
            invariant
                i < n,
                n == ls.len(),
                ls == views_of(lines@),
                j <= row_len,
                prefix_ok(ls, i as int),
                row_len == ls[i as int].len(),
                line@ == ls[i as int],
                row@.len() == j,
                forall|l: int| 0 <= l < j ==> grid_char(#[trigger] ls[i as int][l]),
                forall|l: int|
                    #![trigger row@[l]]
                    0 <= l < j ==> {
                        &&& row@[l].has_bomb == bomb_char(ls[i as int][l])
                        &&& row@[l].visibility == Visibility::Hidden
                        &&& row@[l].adj_bombs == 0
                    },
                row_bomb_count == row_bombs(row@),
                row_bomb_count <= j,
            decreases row_len - j,
        {
            let ghost prev_row = row@;
            let c = line.as_str().get_char(j);
            if c == '#' {
                row.push(Tile::new(true));
                row_bomb_count = row_bomb_count + 1;
            } else if c == '.' {
                row.push(Tile::new(false));
            } else {
                proof {
                    assert(invalid_char_at(ls, i as int, j as int));
                }
                return Err(ParseError::InvalidCharacter(c));
            }
            proof {
                assert(row@.drop_last() =~= prev_row);
            }
            j += 1;
        }
        if i > 0 {
            let expected = tiles[0].len();
            if expected != row.len() {
                proof {
                    assert(tiles@[0]@.len() == ls[0].len());
                    assert(jagged_cond(ls, expected as int, i as int, row@.len() as int));
                }
                return Err(
                    ParseError::JaggedRow {
                        expected_len: expected,
                        row_index: i,
                        actual_len: row.len(),
                    },
                );
            }
        }
        proof {
            assert(row_bomb_count <= ls[0].len());
            assert((i + 1) * ls[0].len() <= n * ls[0].len()) by (nonlinear_arith)
                requires
                    i + 1 <= n,
                    ls[0].len() >= 0,
            ;
            assert(1 * ls[0].len() == ls[0].len()) by (nonlinear_arith);
            assert(i * ls[0].len() + ls[0].len() == (i + 1) * ls[0].len()) by (nonlinear_arith);
        }
        num_bombs = num_bombs + (row_bomb_count as u32);
        let ghost prev_tiles = tiles@;
        tiles.push(row);
        proof {
            assert(views_of_rows(tiles@).drop_last() =~= views_of_rows(prev_tiles));
        }
        i += 1;
    }
    if tiles.len() == 0 {
        return Err(ParseError::EmptyGrid);
    }
    if tiles[0].len() == 0 {
        proof {
            assert forall|k: int| 0 <= k < ls.len() implies #[trigger] ls[k].len() == 0 by {
                assert(ls[k].len() == ls[0].len());
            }
        }
        return Err(ParseError::EmptyGrid);
    }
    let ghost before_adj = views_of_rows(tiles@);
    compute_adj_bombs(&mut tiles);
    proof {
        lemma_grid_bombs_pointwise(before_adj, views_of_rows(tiles@));
    }
    let grid = Grid::new(tiles);
    Ok(ParseResult { grid, num_bombs })
}

/// Parse text lines into a bare grid, dropping the bomb total.
///
/// Same contract as [`parse_grid`], for callers that only need the grid.
pub fn parse(lines: &Vec<String>) -> (r: Result<Grid, ParseError>)
    requires
        lines@.len() == 0 || lines@.len() * lines@[0]@.len() <= u32::MAX,
    ensures
        r is Ok <==> lines_ok(views_of(lines@)),
        r is Ok ==> {
            let g = r->Ok_0;
            &&& g.wf()
            &&& grid_matches_lines(g@, views_of(lines@))
        },
        r is Err ==> error_cond(views_of(lines@), r->Err_0),
{
    match parse_grid(lines) {
        Ok(pr) => Ok(pr.grid),
        Err(e) => Err(e),
    }
}

} // verus!
