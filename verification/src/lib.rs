//! Move selection for a chess-like game: piece marks and their values,
//! negamax search with alpha-beta pruning, and the engines built on it.

pub mod alphabeta;
pub mod board;
pub mod color;
pub mod engine;
pub mod evaluator;
pub mod greedy;
pub mod lookahead1;
pub mod negamax;
pub mod outcome;
pub mod par_alphabeta;
pub mod parse_engine;
pub mod piece_value;
pub mod rng;
pub mod select;
pub mod seq_alphabeta;
pub mod sorting;
pub mod square;
pub mod text;
