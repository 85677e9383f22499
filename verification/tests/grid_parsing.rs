//! Parsing good and bad grid inputs, end to end through `Game`, through
//! `parse_grid`, and through `parse`.

use minesweeper::game::Game;
use minesweeper::parse_grid::{parse, parse_grid, ParseResult};

fn lines(rows: &[&str]) -> Vec<String> {
    rows.iter().map(|r| r.to_string()).collect()
}

/// Parse input lines into a `Game`, print the game to a string, and check
/// that string (with a final newline appended) against the expected text.
fn good(rows: &[&str], expected: &str) {
    let mut game = Game::from_input(&lines(rows)).unwrap();
    game.reveal_all();

    let mut actual = game.to_string();
    actual.push('\n');

    assert_eq!(expected, actual);
}

/// Try to parse a malformed game grid, and unwrap an Err.
fn bad(rows: &[&str]) {
    let result = Game::from_input(&lines(rows));
    assert!(result.is_err());
}

/// Parse input lines with `parse_grid`, check the bomb total against the
/// grid, then reveal everything and check the rendering.
fn good_parse(rows: &[&str], expected: &str) {
    let input = lines(rows);
    let ParseResult { mut grid, num_bombs } = parse_grid(&input).unwrap();

    let mut counted = 0;
    for i in 0..grid.row_count() {
        for j in 0..grid.col_count() {
            if grid.tile_at(i, j).has_bomb {
                counted += 1;
            }
        }
    }
    assert_eq!(num_bombs, counted);

    grid.reveal_all();
    let mut output = grid.to_string();
    output.push('\n');
    assert_eq!(output, expected);
}

fn bad_parse(rows: &[&str]) {
    let result = parse_grid(&lines(rows));
    assert!(result.is_err());
}

#[test]
fn game_test_good_examples() {
    good(&["#...", "..#.", "...."], "#211\n12#1\n 111\n");
    good(&["#.#."], "#2#1\n");
    good(&["#", ".", "."], "#\n1\n \n");
    good(&["#"], "#\n");
    good(&["."], " \n");
}

#[test]
fn game_test_bad_examples() {
    bad(&[]);
    bad(&["..", ".x"]);
    bad(&["..", "."]);
    bad(&[""]);
}

#[test]
fn parse_grid_test_good_examples() {
    good_parse(&["#...", "..#.", "...."], "#211\n12#1\n 111\n");
    good_parse(&["#.#."], "#2#1\n");
    good_parse(&["#", ".", "."], "#\n1\n \n");
    good_parse(&["#"], "#\n");
    good_parse(&["."], " \n");
}

#[test]
fn parse_grid_test_bad_examples() {
    bad_parse(&[]);
    bad_parse(&["..", ".x"]);
    bad_parse(&["..", "."]);
    bad_parse(&[""]);
}

#[test]
fn io_small() {
    let mut grid = parse(&lines(&["#...", "..#.", "...."])).unwrap();
    grid.reveal_all();

    let expected = "#211\n12#1\n 111";
    let actual = grid.to_string();
    assert_eq!(expected, actual);
}
