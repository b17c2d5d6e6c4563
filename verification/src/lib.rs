//! The decision logic of an infinite-chess engine: static evaluation and
//! alpha-beta search, stated in contracts and proved.
pub mod arith;
pub mod board;
pub mod evaluation;
pub mod game;
pub mod moves;
pub mod search;
pub mod text;
