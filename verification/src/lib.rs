//! A Connect Four engine: the 7x6 grid, a static positional evaluator and a
//! depth-bounded minimax search with alpha-beta pruning.
//!
//! * `board` holds the grid and the moves on it.
//! * `lines` finds four in a row.
//! * `evaluation` scores a board for one side.
//! * `game_tree` says what the value of a board is, and `pruning` proves
//!   that alpha-beta pruning finds it.
//! * `ai_opponent` searches the game tree and chooses a move.
//! * `game` tells how a turn ends, `input` what a player may enter, and
//!   `display` what a square looks like.

pub mod ai_opponent;
pub mod board;
pub mod display;
pub mod evaluation;
pub mod game;
pub mod game_tree;
pub mod input;
pub mod lines;
pub mod pruning;
