//! One cell of the minefield: bomb status, adjacency count, visibility.

use vstd::prelude::*;

verus! {

/// Is this tile revealed to the player?
#[derive(Debug, Clone, Copy, PartialEq, Eq, Structural)]
pub enum Visibility {
    Hidden,
    Flagged,
    Revealed,
}

/// A tile in the game.
///
/// `has_bomb` is fixed at parse time. `adj_bombs` counts the bombs in the
/// 8-neighborhood of the tile, excluding the tile itself, so it always lies
/// in `0..=8` once the grid has been parsed; it is never recomputed
/// afterwards. `visibility` starts out `Hidden`.
#[derive(Debug, Clone, Copy)]
pub struct Tile {
    pub has_bomb: bool,
    pub adj_bombs: u32,
    pub visibility: Visibility,
}

/// The single ascii digit for an adjacency count in `1..=9`.
pub open spec fn digit_char(n: int) -> char
    recommends
        1 <= n <= 9,
{
    if n == 1 {
        '1'
    } else if n == 2 {
        '2'
    } else if n == 3 {
        '3'
    } else if n == 4 {
        '4'
    } else if n == 5 {
        '5'
    } else if n == 6 {
        '6'
    } else if n == 7 {
        '7'
    } else if n == 8 {
        '8'
    } else {
        '9'
    }
}

/// The character a tile displays: `.` while hidden, `*` while flagged, and
/// once revealed either the bomb marker `#`, a blank for zero adjacent
/// bombs, or the digit of the adjacency count.
pub open spec fn char_of_tile(t: Tile) -> char {
    match t.visibility {
        Visibility::Hidden => '.',
        Visibility::Flagged => '*',
        Visibility::Revealed => if t.has_bomb {
            '#'
        } else if t.adj_bombs == 0 {
            ' '
        } else {
            digit_char(t.adj_bombs as int)
        },
    }
}

impl Tile {
    /// Create a new tile, initially hidden.
    ///
    /// `adj_bombs` is not computed here; the parser fills it in once the
    /// whole grid is known.
    pub fn new(has_bomb: bool) -> (t: Tile)
        ensures
            t == (Tile { has_bomb, adj_bombs: 0, visibility: Visibility::Hidden }),
    {
        Tile { has_bomb, adj_bombs: 0, visibility: Visibility::Hidden }
    }

    /// What should we display to the user?
    ///
    /// Depends on whether the tile is revealed or flagged, how many bombs
    /// are adjacent, and whether the tile itself holds a bomb.
    pub fn to_char(&self) -> (c: char)
        requires
            self.adj_bombs <= 9,
        ensures
            c == char_of_tile(*self),
    {
        match self.visibility {
            Visibility::Hidden => '.',
            Visibility::Flagged => '*',
            Visibility::Revealed => {
                if self.has_bomb {
                    '#'
                } else if self.adj_bombs == 0 {
                    ' '
                } else if self.adj_bombs == 1 {
                    '1'
                } else if self.adj_bombs == 2 {
                    '2'
                } else if self.adj_bombs == 3 {
                    '3'
                } else if self.adj_bombs == 4 {
                    '4'
                } else if self.adj_bombs == 5 {
                    '5'
                } else if self.adj_bombs == 6 {
                    '6'
                } else if self.adj_bombs == 7 {
                    '7'
                } else if self.adj_bombs == 8 {
                    '8'
                } else {
                    '9'
                }
            },
        }
    }
}

} // verus!
