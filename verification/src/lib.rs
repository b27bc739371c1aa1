//! A fixed-depth chess engine: a static evaluator built from material values
//! and piece-square tables, and a minimax search with alpha-beta pruning on
//! top of the `shakmaty` rules engine.

pub mod eval;
pub mod game;
pub mod laws;
pub mod pieces;
pub mod render;
pub mod rules;
pub mod search;
pub mod tables;
