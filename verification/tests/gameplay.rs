//! The reveal state machine, the error taxonomy, and the display contract
//! on concrete games.

use minesweeper::game::{Game, GameOutcome};
use minesweeper::grid::Point;
use minesweeper::parse_grid::{parse_grid, ParseError};
use minesweeper::tile::{Tile, Visibility};

fn lines(rows: &[&str]) -> Vec<String> {
    rows.iter().map(|r| r.to_string()).collect()
}

fn game(rows: &[&str]) -> Game {
    Game::from_input(&lines(rows)).unwrap()
}

#[test]
fn two_reveals_win() {
    // A 1x2 grid without bombs: revealing both tiles ends in a win.
    let mut g = game(&[".."]);
    assert_eq!(g.num_tiles(), 2);
    assert_eq!(g.num_bombs(), 0);
    g.reveal_at(Point { row: 0, col: 0 });
    assert_eq!(g.is_game_over(), None);
    g.reveal_at(Point { row: 0, col: 1 });
    assert_eq!(g.is_game_over(), Some(GameOutcome::Win));
}

#[test]
fn one_by_one_bomb_loss() {
    // A 1x1 grid holding one bomb: the first reveal loses immediately.
    let mut g = game(&["#"]);
    g.reveal_at(Point { row: 0, col: 0 });
    assert_eq!(g.is_game_over(), Some(GameOutcome::Loss));
}

#[test]
fn bomb_loses_regardless_of_progress() {
    // Revealing a bomb sets Loss whatever was revealed before.
    let mut g = game(&["#..."]);
    g.reveal_at(Point { row: 0, col: 1 });
    g.reveal_at(Point { row: 0, col: 2 });
    assert_eq!(g.is_game_over(), None);
    g.reveal_at(Point { row: 0, col: 0 });
    assert_eq!(g.is_game_over(), Some(GameOutcome::Loss));
}

#[test]
fn win_exactly_on_last_non_bomb() {
    // Second-to-last bomb-free tile must not win yet; the last one must.
    let mut g = game(&["..#"]);
    g.reveal_at(Point { row: 0, col: 0 });
    assert_eq!(g.is_game_over(), None);
    g.reveal_at(Point { row: 0, col: 1 });
    assert_eq!(g.is_game_over(), Some(GameOutcome::Win));
}

#[test]
fn jagged_error_payload() {
    // Two rows of unequal length: expected length 2, row index 1, length 1.
    let r = parse_grid(&lines(&["..", "."]));
    assert_eq!(
        r.err(),
        Some(ParseError::JaggedRow { expected_len: 2, row_index: 1, actual_len: 1 })
    );
}

#[test]
fn invalid_char_error_payload() {
    // 'x' is not in the sentinel set {'#', '.'}.
    let r = parse_grid(&lines(&["..", ".x"]));
    assert_eq!(r.err(), Some(ParseError::InvalidCharacter('x')));
}

#[test]
fn invalid_char_reported_before_jagged_row() {
    // A row that is both too long and malformed reports its first bad
    // character, not its length.
    let r = parse_grid(&lines(&["..", ".ab"]));
    assert_eq!(r.err(), Some(ParseError::InvalidCharacter('a')));
}

#[test]
fn empty_grid_errors() {
    // No rows at all, and rows without columns, are both empty grids.
    assert_eq!(parse_grid(&lines(&[])).err(), Some(ParseError::EmptyGrid));
    assert_eq!(parse_grid(&lines(&["", ""])).err(), Some(ParseError::EmptyGrid));
}

#[test]
fn center_bomb_adjacency() {
    // A 3x3 grid with a single bomb in the middle: every other tile has
    // adjacency 1; the bomb tile does not count itself.
    let g = game(&["...", ".#.", "..."]);
    for row in 0..3 {
        for col in 0..3 {
            let t = g.get(Point { row, col }).unwrap();
            if row == 1 && col == 1 {
                assert!(t.has_bomb);
                assert_eq!(t.adj_bombs, 0);
            } else {
                assert!(!t.has_bomb);
                assert_eq!(t.adj_bombs, 1);
            }
        }
    }
}

#[test]
fn adjacency_in_range_and_exact() {
    // All eight neighbors of the center hold bombs: the maximum count.
    let g = game(&["###", "#.#", "###"]);
    let t = g.get(Point { row: 1, col: 1 }).unwrap();
    assert_eq!(t.adj_bombs, 8);
    for row in 0..3 {
        for col in 0..3 {
            let t = g.get(Point { row, col }).unwrap();
            assert!(t.adj_bombs <= 8);
        }
    }
}

#[test]
fn bomb_total_counts_bomb_tiles() {
    // The parser's bomb total equals the number of tiles with a bomb.
    let g = game(&["#.#", "..#", "..."]);
    let (h, w) = g.dimensions();
    assert_eq!((h, w), (3, 3));
    assert_eq!(g.num_tiles(), 9);
    let mut counted = 0;
    for row in 0..h {
        for col in 0..w {
            if g.get(Point { row, col }).unwrap().has_bomb {
                counted += 1;
            }
        }
    }
    assert_eq!(g.num_bombs(), counted);
    assert_eq!(g.num_bombs(), 3);
}

#[test]
fn get_out_of_bounds_is_none() {
    let g = game(&["..", ".."]);
    assert!(g.get(Point { row: 0, col: 1 }).is_some());
    assert!(g.get(Point { row: 0, col: 2 }).is_none());
    assert!(g.get(Point { row: 2, col: 0 }).is_none());
    assert!(g.get(Point { row: 7, col: 9 }).is_none());
}

#[test]
fn outcome_read_is_stable() {
    // Querying the outcome has no side effect: repeated reads agree, and
    // the rest of the state is untouched.
    let mut g = game(&["#"]);
    assert_eq!(g.is_game_over(), None);
    assert_eq!(g.is_game_over(), None);
    g.reveal_at(Point { row: 0, col: 0 });
    assert_eq!(g.is_game_over(), Some(GameOutcome::Loss));
    assert_eq!(g.is_game_over(), Some(GameOutcome::Loss));
    assert_eq!(g.to_string(), "#");
}

#[test]
fn reveal_all_keeps_loss() {
    // Force-revealing for display leaves a Loss outcome in place.
    let mut g = game(&["#."]);
    g.reveal_at(Point { row: 0, col: 0 });
    assert_eq!(g.is_game_over(), Some(GameOutcome::Loss));
    g.reveal_all();
    assert_eq!(g.is_game_over(), Some(GameOutcome::Loss));
    assert_eq!(g.num_tiles(), 2);
    assert_eq!(g.to_string(), "#1");
}

#[test]
fn reveal_all_keeps_win() {
    let mut g = game(&["."]);
    g.reveal_at(Point { row: 0, col: 0 });
    assert_eq!(g.is_game_over(), Some(GameOutcome::Win));
    g.reveal_all();
    assert_eq!(g.is_game_over(), Some(GameOutcome::Win));
}

#[test]
fn reveal_all_reveals_every_tile() {
    // Reveal-all marks every tile revealed, independent of prior state.
    let mut g = game(&["#..", ".#."]);
    g.reveal_all();
    let (h, w) = g.dimensions();
    for row in 0..h {
        for col in 0..w {
            let t = g.get(Point { row, col }).unwrap();
            assert_eq!(t.visibility, Visibility::Revealed);
        }
    }
    assert_eq!(g.num_tiles() as usize, h * w);
    assert_eq!(g.is_game_over(), None);
}

#[test]
fn render_round_trip_after_full_reveal() {
    // Parsing, revealing all tiles, and rendering gives one character per
    // tile with rows joined by single newlines and no hidden or flag
    // marker left.
    let mut g = game(&["#..", "...", "..#"]);
    g.reveal_all();
    let s = g.to_string();
    let (h, w) = g.dimensions();
    assert_eq!(s.chars().count(), h * (w + 1) - 1);
    assert!(s.chars().all(|c| c != '.' && c != '*'));
    assert_eq!(s, "#1 \n121\n 1#");
}

#[test]
fn bomb_free_render_has_no_markers_at_all() {
    // On a grid without bombs, a full reveal leaves no bomb, hidden, or
    // flag marker: only blanks, digits, and newlines.
    let mut g = game(&["..", ".."]);
    g.reveal_all();
    let s = g.to_string();
    assert_eq!(s, "  \n  ");
    assert!(s.chars().all(|c| c != '#' && c != '.' && c != '*'));
}

#[test]
fn hidden_grid_renders_dots() {
    let g = game(&["#..", ".#."]);
    assert_eq!(g.to_string(), "...\n...");
}

#[test]
fn tile_display_characters() {
    let hidden = Tile::new(true);
    assert_eq!(hidden.to_char(), '.');

    let mut flagged = Tile::new(false);
    flagged.visibility = Visibility::Flagged;
    assert_eq!(flagged.to_char(), '*');

    let mut bomb = Tile::new(true);
    bomb.visibility = Visibility::Revealed;
    assert_eq!(bomb.to_char(), '#');

    let mut blank = Tile::new(false);
    blank.visibility = Visibility::Revealed;
    assert_eq!(blank.to_char(), ' ');

    for n in 1..=8 {
        let t = Tile { has_bomb: false, adj_bombs: n, visibility: Visibility::Revealed };
        let digit = char::from_digit(n, 10).unwrap();
        assert_eq!(t.to_char(), digit);
    }
}

#[test]
fn parser_leaves_tiles_hidden() {
    let g = game(&["#.", ".."]);
    let (h, w) = g.dimensions();
    for row in 0..h {
        for col in 0..w {
            let t = g.get(Point { row, col }).unwrap();
            assert_eq!(t.visibility, Visibility::Hidden);
        }
    }
    assert_eq!(g.is_game_over(), None);
}
