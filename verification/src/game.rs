//! The state of a game, as far as evaluation and search read it.
use crate::board::{Board, Coordinate, PlayerColor};
use crate::moves::SpatialIndices;
use vstd::prelude::*;

verus! {

/// The variants that searches tell apart.
#[derive(Clone, Copy, PartialEq, Eq, Structural, Debug)]
pub enum Variant {
    Classical,
    Chess,
    CoaIP,
    CoaIPHO,
    CoaIPRO,
    CoaIPNO,
    Other,
}

pub struct GameState {
    pub board: Board,
    pub turn: PlayerColor,
    /// White's material minus Black's.
    pub material_score: i32,
    pub white_king_pos: Option<Coordinate>,
    pub black_king_pos: Option<Coordinate>,
    /// The phase of all pieces together; it may exceed the full middlegame.
    pub total_phase: i32,
    pub white_promo_rank: i64,
    pub black_promo_rank: i64,
    /// The squares on which pieces stood at the start.
    pub starting_squares: Vec<Coordinate>,
    pub white_piece_count: u32,
    pub black_piece_count: u32,
    pub white_pawn_count: u32,
    pub black_pawn_count: u32,
    pub white_non_pawn_material: bool,
    pub black_non_pawn_material: bool,
    pub spatial_indices: SpatialIndices,
    /// The edges of the playable area: least and greatest `x`, then `y`.
    pub bounds: (i64, i64, i64, i64),
    pub hash: u64,
    pub pawn_hash: u64,
    pub material_hash: u64,
    /// Knights and bishops.
    pub minor_hash: u64,
    pub white_nonpawn_hash: u64,
    pub black_nonpawn_hash: u64,
    pub white_royals: Vec<Coordinate>,
    pub black_royals: Vec<Coordinate>,
    pub halfmove_clock: u32,
    /// The square that a pawn can capture onto in passing.
    pub en_passant: Option<Coordinate>,
    pub variant: Option<Variant>,
    /// The number of moves without progress that draws, where there is one.
    pub move_rule_limit: Option<u32>,
}

/// Whether `(x, y)` is one of the squares `starts`.
pub open spec fn started_on(starts: Seq<Coordinate>, x: int, y: int) -> bool {
    exists|i: int| 0 <= i < starts.len() && (#[trigger] starts[i]).x == x && starts[i].y == y
}

impl GameState {
    /// Whether a piece stood on `(x, y)` at the start.
    pub fn is_starting_square(&self, x: i64, y: i64) -> (r: bool)
        ensures
            r == started_on(self.starting_squares@, x as int, y as int),
    {
        let mut i: usize = 0;
        while i < self.starting_squares.len()
            invariant
                i <= self.starting_squares@.len(),
                forall|k: int|
                    0 <= k < i ==> (#[trigger] self.starting_squares@[k]).x != x
                        || self.starting_squares@[k].y != y,
            decreases self.starting_squares@.len() - i,
        {
            if self.starting_squares[i].x == x && self.starting_squares[i].y == y {
                assert(self.starting_squares@[i as int].x == x);
                return true;
            }
            i += 1;
        }
        false
    }
}

} // verus!
