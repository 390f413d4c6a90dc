//! Legal move generation for chess positions, with algebraic-style notation.

pub mod types;
pub mod notation;
pub mod board;
pub mod rules;
pub mod movegen;
pub mod legality;
pub mod input;
