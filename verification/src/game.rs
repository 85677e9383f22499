//! The game state engine: one game's grid, counters, and outcome.

use vstd::prelude::*;

use crate::counting::{grid_bombs, lemma_grid_bombs_bounds, lemma_grid_bombs_missing, lemma_grid_bombs_pointwise};
use crate::grid::{all_revealed, rect_nonempty, render, reveal_spec, tiles_consistent, Grid, Point};
use crate::parse_grid::{error_cond, grid_matches_lines, lines_ok, parse_grid, views_of, ParseError, ParseResult};
use crate::tile::{Tile, Visibility};

verus! {

/// After the game, did the user win or lose.
#[derive(Debug, Clone, Copy, PartialEq, Eq, Structural)]
pub enum GameOutcome {
    Win,
    Loss,
}

/// The state of a game of minesweeper.
///
/// Mostly just the grid, plus some aggregate counters.
#[derive(Debug)]
pub struct Game {
    /// The grid of tiles. Guaranteed to be a non-empty rectangle.
    grid: Grid,
    /// The total number of bombs in the game.
    num_bombs: u32,
    /// The total number of tiles revealed.
    num_revealed: u32,
    /// Is the game over, and how did it end?
    is_game_over: Option<GameOutcome>,
}

impl Game {
    /// The tiles of the game grid.
    pub closed spec fn spec_grid(&self) -> Seq<Seq<Tile>> {
        self.grid@
    }

    /// The stored bomb total.
    pub closed spec fn spec_num_bombs(&self) -> u32 {
        self.num_bombs
    }

    /// The stored count of revealed tiles.
    pub closed spec fn spec_num_revealed(&self) -> u32 {
        self.num_revealed
    }

    /// The stored outcome, `None` while the game is in progress.
    pub closed spec fn spec_outcome(&self) -> Option<GameOutcome> {
        self.is_game_over
    }

    /// The total number of tiles: height times width.
    pub open spec fn spec_num_tiles(&self) -> int {
        self.spec_grid().len() as int * self.spec_grid()[0].len() as int
    }

    /// A valid game state.
    ///
    /// The grid is a consistent non-empty rectangle whose tile count fits
    /// the counters; the bomb counter equals the number of bombs on the
    /// grid; and while no outcome is set, the revealed counter is still
    /// short of the number of bomb-free tiles, or no tile has been
    /// revealed yet, or the whole grid was force-revealed for display.
    pub open spec fn wf(&self) -> bool {
        &&& rect_nonempty(self.spec_grid())
        &&& tiles_consistent(self.spec_grid())
        &&& self.spec_num_tiles() <= u32::MAX
        &&& self.spec_num_bombs() == grid_bombs(self.spec_grid())
        &&& self.spec_num_bombs() <= self.spec_num_tiles()
        &&& self.spec_num_revealed() <= self.spec_num_tiles()
        &&& (self.spec_outcome() is None ==> {
            ||| self.spec_num_revealed() < self.spec_num_tiles() - self.spec_num_bombs()
            ||| self.spec_num_revealed() == 0
            ||| (all_revealed(self.spec_grid()) && self.spec_num_revealed()
                == self.spec_num_tiles())
        })
    }

    /// Wrap parsed text lines into a fresh game: nothing revealed, no
    /// outcome. A parse failure propagates unchanged.
    pub fn from_input(lines: &Vec<String>) -> (r: Result<Game, ParseError>)
        requires
            lines@.len() == 0 || lines@.len() * lines@[0]@.len() <= u32::MAX,
        ensures
            r is Ok <==> lines_ok(views_of(lines@)),
            r is Ok ==> {
                let game = r->Ok_0;
                &&& game.wf()
                &&& grid_matches_lines(game.spec_grid(), views_of(lines@))
                &&& game.spec_num_bombs() == grid_bombs(game.spec_grid())
                &&& game.spec_num_revealed() == 0
                &&& game.spec_outcome() is None
            },
            r is Err ==> error_cond(views_of(lines@), r->Err_0),
    {
        match parse_grid(lines) {
            Ok(ParseResult { grid, num_bombs }) => {
                proof {
                    lemma_grid_bombs_bounds(grid@, grid@[0].len() as int);
                }
                Ok(Game { grid, num_bombs, num_revealed: 0, is_game_over: None })
            },
            Err(e) => Err(e),
        }
    }

    /// Get the dimensions of the game grid: (height, width).
    pub fn dimensions(&self) -> (d: (usize, usize))
        requires
            self.spec_grid().len() > 0,
        ensures
            d.0 == self.spec_grid().len(),
            d.1 == self.spec_grid()[0].len(),
    {
        (self.grid.row_count(), self.grid.col_count())
    }

    /// How many total tiles are there on the grid?
    pub fn num_tiles(&self) -> (n: u32)
        requires
            self.spec_grid().len() > 0,
            self.spec_num_tiles() <= u32::MAX,
        ensures
            n == self.spec_num_tiles(),
    {
        let (h, w) = self.dimensions();
        proof {
            assert(h * w == self.spec_num_tiles());
        }
        (h * w) as u32
    }

    /// Get the total number of bombs in the game.
    pub fn num_bombs(&self) -> (n: u32)
        ensures
            n == self.spec_num_bombs(),
    {
        self.num_bombs
    }

    /// Get a tile, or return None if the indices are out of bounds.
    ///
    /// This is the only bounds-checked read path: use it whenever the
    /// point may be invalid.
    pub fn get(&self, point: Point) -> (r: Option<Tile>)
        requires
            rect_nonempty(self.spec_grid()),
        ensures
            r == (if point.row < self.spec_grid().len() && point.col
                < self.spec_grid()[0].len() {
                Some(self.spec_grid()[point.row as int][point.col as int])
            } else {
                None::<Tile>
            }),
    {
        if point.row < self.grid.row_count() && point.col < self.grid.col_count() {
            Some(self.grid.tile_at(point.row, point.col))
        } else {
            None
        }
    }

    /// Is the game over, and how did it end?
    ///
    /// Return None if the game is in progress. A pure query: asking never
    /// changes the outcome.
    pub fn is_game_over(&self) -> (r: Option<GameOutcome>)
        ensures
            r == self.spec_outcome(),
    {
        self.is_game_over
    }

    /// Reveal a hidden tile and update the outcome if this ends the game.
    ///
    /// The game must still be in progress, `point` must be in range, and
    /// the tile must be hidden; revealing anything else is a contract
    /// violation by the caller, not a recoverable error. A bomb ends the
    /// game as a loss; revealing the last bomb-free tile ends it as a win;
    /// otherwise the game stays in progress.
    pub fn reveal_at(&mut self, point: Point)
        requires
            old(self).wf(),
            old(self).spec_outcome() is None,
            point.row < old(self).spec_grid().len(),
            point.col < old(self).spec_grid()[0].len(),
            old(self).spec_grid()[point.row as int][point.col as int].visibility
                == Visibility::Hidden,
        ensures
            final(self).wf(),
            final(self).spec_grid() == old(self).spec_grid().update(
                point.row as int,
                old(self).spec_grid()[point.row as int].update(
                    point.col as int,
                    reveal_spec(old(self).spec_grid()[point.row as int][point.col as int]),
                ),
            ),
            final(self).spec_num_bombs() == old(self).spec_num_bombs(),
            final(self).spec_num_revealed() == old(self).spec_num_revealed() + 1,
            old(self).spec_grid()[point.row as int][point.col as int].has_bomb ==> final(self).spec_outcome() == Some(GameOutcome::Loss),
            !old(self).spec_grid()[point.row as int][point.col as int].has_bomb ==> {
                if old(self).spec_num_revealed() + 1 == old(self).spec_num_tiles() - old(self).spec_num_bombs() {
                    final(self).spec_outcome() == Some(GameOutcome::Win)
                } else {
                    final(self).spec_outcome() is None
                }
            },
    {
        let non_bombs = self.num_tiles() - self.num_bombs;
        let tile = self.grid.tile_at(point.row, point.col);
        proof {
            if !tile.has_bomb {
                lemma_grid_bombs_missing(
                    self.spec_grid(),
                    self.spec_grid()[0].len() as int,
                    point.row as int,
                    point.col as int,
                );
            }
        }
        proof {
            let h = old(self).spec_grid().len() as int;
            let w = old(self).spec_grid()[0].len() as int;
            assert(h * w >= 1) by (nonlinear_arith)
                requires
                    h >= 1,
                    w >= 1,
            ;
            if old(self).spec_num_revealed() >= old(self).spec_num_tiles() {
                assert(all_revealed(old(self).spec_grid()));
                assert(old(self).spec_grid()[point.row as int][point.col as int].visibility
                    == Visibility::Revealed);
            }
            assert(old(self).spec_num_revealed() < old(self).spec_num_tiles());
        }
        self.grid.reveal_tile(point.row, point.col);
        self.num_revealed = self.num_revealed + 1;
        proof {
            lemma_grid_bombs_pointwise(old(self).spec_grid(), self.spec_grid());
        }
        if tile.has_bomb {
            // Hit a bomb -> you lose.
            self.is_game_over = Some(GameOutcome::Loss);
        } else {
            // Reveal all the non-bombs -> you win.
            if self.num_revealed >= non_bombs {
                proof {
                    assert(self.num_revealed == non_bombs);
                }
                self.is_game_over = Some(GameOutcome::Win);
            }
        }
    }

    /// Mark all tiles as revealed; e.g. when the game ends.
    ///
    /// Every tile is forced to `Revealed` and the revealed counter is set
    /// to the full tile count, whatever the prior visibility. The outcome
    /// is left exactly as it was.
    pub fn reveal_all(&mut self)
        requires
            old(self).wf(),
        ensures
            final(self).wf(),
            final(self).spec_grid().len() == old(self).spec_grid().len(),
            forall|i: int|
                0 <= i < old(self).spec_grid().len() ==> #[trigger] final(self).spec_grid()[i].len()
                    == old(self).spec_grid()[i].len(),
            forall|i: int, j: int|
                #![trigger final(self).spec_grid()[i][j]]
                0 <= i < old(self).spec_grid().len() && 0 <= j < old(self).spec_grid()[i].len()
                    ==> final(self).spec_grid()[i][j] == reveal_spec(old(self).spec_grid()[i][j]),
            all_revealed(final(self).spec_grid()),
            final(self).spec_num_bombs() == old(self).spec_num_bombs(),
            final(self).spec_num_revealed() == final(self).spec_num_tiles(),
            final(self).spec_outcome() == old(self).spec_outcome(),
    {
        let total = self.num_tiles();
        self.grid.reveal_all();
        self.num_revealed = total;
        proof {
            lemma_grid_bombs_pointwise(old(self).spec_grid(), self.spec_grid());
        }
    }

    /// Rows of the grid as display text, with no trailing newline.
    ///
    /// See `Tile::to_char` for the character of each tile.
    pub fn to_string(&self) -> (s: String)
        requires
            self.wf(),
        ensures
            s@ == render(self.spec_grid()),
    {
        self.grid.to_string()
    }
}

} // verus!
