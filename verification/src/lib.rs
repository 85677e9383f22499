//! Rules engine for a grid-based mine-discovery puzzle.
//!
//! The library parses a textual minefield description into a rectangular
//! grid of tiles, tracks per-tile visibility, and drives the reveal /
//! win-loss state machine. All I/O (reading the input file, prompting the
//! player) lives outside this crate; the library works on plain lines of
//! text and hands back plain values.

pub mod counting;
pub mod game;
pub mod grid;
pub mod laws;
pub mod parse_grid;
pub mod tile;
