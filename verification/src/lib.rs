//! Core of a chess engine: bitboard geometry with magic-number attack
//! tables, and an iterative-deepening alpha-beta search with quiescence,
//! a transposition table and the usual pruning heuristics.

pub mod board;
pub mod bitboard;
pub mod sliders;
pub mod magics;
pub mod movement;
pub mod score;
pub mod position;
pub mod eval;
pub mod movegen;
pub mod transposition;
pub mod search;
pub mod uci;
