//! A depth-bounded alpha-beta chess search with a material and
//! piece-square evaluator, verified with Verus.

pub mod bits;
pub mod pieces;
pub mod evaluation;
pub mod rules;
pub mod position;
pub mod tree;
pub mod alphabeta;
pub mod negamax;
pub mod laws;
pub mod engine;
pub mod material;
pub mod player;
