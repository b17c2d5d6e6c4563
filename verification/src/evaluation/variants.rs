//! Evaluation of particular variants.
pub mod chess;
pub mod chess_order;
pub mod chess_symmetry;
pub mod chess_tables;
pub mod chess_worth;
