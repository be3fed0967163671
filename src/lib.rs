//! A Rubik's-cube algorithm finder: a bit-packed 3x3x3 cube, its 21 moves,
//! a wildcard pattern predicate and an iterative-deepening search.

pub mod face;
pub mod cube;
pub mod laws;
pub mod conservation;
pub mod pattern;
pub mod search;
