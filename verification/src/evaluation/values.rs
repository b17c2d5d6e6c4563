//! What a kind of piece is worth, and how middlegame and endgame weights blend.
use crate::arith::tdiv;
use crate::board::{Piece, PieceType, PlayerColor};
use vstd::prelude::*;

verus! {

pub const KNIGHT: i32 = 250;

pub const BISHOP: i32 = KNIGHT + 200;

pub const ROOK: i32 = KNIGHT + BISHOP - 50;

pub const GUARD: i32 = 220;

pub const CENTAUR: i32 = 550;

pub const COMPOUND_BONUS: i32 = 50;

pub const ROYAL_BONUS: i32 = 50;

pub const QUEEN: i32 = ROOK * 2 + COMPOUND_BONUS;

/// The phase at which middlegame weights apply in full.
pub const MAX_PHASE: i32 = 24;

/// Squares lie within this distance of the origin on either axis.
pub const COORD_LIMIT: i64 = 0x1000_0000_0000_0000;

/// Promotion ranks lie within this distance of the origin.
pub const PROMO_LIMIT: i64 = 0x4000_0000_0000_0000;

/// Boards hold at most this many pieces, so that sums of scores fit in `i32`.
pub const MAX_PIECES: usize = 65_536;

/// Whether a square lies within range.
pub open spec fn in_range(x: int, y: int) -> bool {
    -COORD_LIMIT <= x <= COORD_LIMIT && -COORD_LIMIT <= y <= COORD_LIMIT
}

pub open spec fn piece_value(pt: PieceType) -> int {
    match pt {
        PieceType::Void | PieceType::Obstacle => 0,
        PieceType::Pawn => 100,
        PieceType::Knight => 250,
        PieceType::Bishop => 450,
        PieceType::Rook => 650,
        PieceType::Queen => 1350,
        PieceType::Guard => 220,
        PieceType::Camel => 270,
        PieceType::Giraffe => 260,
        PieceType::Zebra => 260,
        PieceType::Knightrider => 700,
        PieceType::Amazon => 1600,
        PieceType::Hawk => 600,
        PieceType::Chancellor => 1000,
        PieceType::Archbishop => 900,
        PieceType::Centaur => 550,
        PieceType::King => 270,
        PieceType::RoyalQueen => 1400,
        PieceType::RoyalCentaur => 600,
        PieceType::Rose => 450,
        PieceType::Huygen => 355,
    }
}

/// The material value of a kind of piece. Sliders dominate on an unbounded
/// board.
pub fn get_piece_value(piece_type: PieceType) -> (r: i32)
    ensures
        r == piece_value(piece_type),
        0 <= r <= 1600,
{
    match piece_type {
        PieceType::Void => 0,
        PieceType::Obstacle => 0,
        PieceType::Pawn => 100,
        PieceType::Knight => KNIGHT,
        PieceType::Bishop => BISHOP,
        PieceType::Rook => ROOK,
        PieceType::Queen => QUEEN,
        PieceType::Guard => GUARD,
        PieceType::Camel => 270,
        PieceType::Giraffe => 260,
        PieceType::Zebra => 260,
        PieceType::Knightrider => 700,
        PieceType::Amazon => QUEEN + KNIGHT,
        PieceType::Hawk => 600,
        PieceType::Chancellor => ROOK + KNIGHT + 100,
        PieceType::Archbishop => 900,
        PieceType::Centaur => CENTAUR,
        PieceType::King => GUARD + ROYAL_BONUS,
        PieceType::RoyalQueen => QUEEN + ROYAL_BONUS,
        PieceType::RoyalCentaur => CENTAUR + ROYAL_BONUS,
        PieceType::Rose => 450,
        PieceType::Huygen => 355,
    }
}

pub open spec fn centrality_weight(pt: PieceType) -> int {
    match pt {
        PieceType::King => 2000,
        PieceType::Queen | PieceType::RoyalQueen | PieceType::Amazon => 1000,
        PieceType::Rook | PieceType::Chancellor => 500,
        PieceType::Bishop | PieceType::Archbishop => 300,
        PieceType::Knight | PieceType::Centaur | PieceType::RoyalCentaur => 300,
        PieceType::Camel | PieceType::Giraffe | PieceType::Zebra => 300,
        PieceType::Knightrider => 400,
        PieceType::Hawk | PieceType::Rose => 350,
        PieceType::Guard | PieceType::Huygen => 250,
        PieceType::Void | PieceType::Obstacle | PieceType::Pawn => 0,
    }
}

/// How strongly a kind of piece draws the centre of the piece cloud.
pub fn get_centrality_weight(piece_type: PieceType) -> (r: i64)
    ensures
        r == centrality_weight(piece_type),
        0 <= r <= 2000,
{
    match piece_type {
        PieceType::King => 2000,
        PieceType::Queen | PieceType::RoyalQueen | PieceType::Amazon => 1000,
        PieceType::Rook | PieceType::Chancellor => 500,
        PieceType::Bishop | PieceType::Archbishop => 300,
        PieceType::Knight | PieceType::Centaur | PieceType::RoyalCentaur => 300,
        PieceType::Camel | PieceType::Giraffe | PieceType::Zebra => 300,
        PieceType::Knightrider => 400,
        PieceType::Hawk => 350,
        PieceType::Rose => 350,
        PieceType::Guard | PieceType::Huygen => 250,
        _ => 0,
    }
}

pub open spec fn piece_phase(pt: PieceType) -> int {
    match pt {
        PieceType::Knight | PieceType::Bishop | PieceType::Guard | PieceType::Centaur => 1,
        PieceType::Camel | PieceType::Giraffe | PieceType::Zebra | PieceType::Huygen => 1,
        PieceType::Rook | PieceType::Rose | PieceType::Chancellor | PieceType::Archbishop => 2,
        PieceType::Hawk | PieceType::Knightrider | PieceType::RoyalCentaur => 2,
        PieceType::Queen | PieceType::Amazon | PieceType::RoyalQueen => 4,
        PieceType::Void | PieceType::Obstacle | PieceType::King | PieceType::Pawn => 0,
    }
}

/// What a kind of piece adds to the game phase.
pub fn get_piece_phase(piece_type: PieceType) -> (r: i32)
    ensures
        r == piece_phase(piece_type),
        0 <= r <= 4,
{
    match piece_type {
        PieceType::Pawn => 0,
        PieceType::Knight => 1,
        PieceType::Bishop => 1,
        PieceType::Rook => 2,
        PieceType::Queen => 4,
        PieceType::King => 0,
        PieceType::Guard => 1,
        PieceType::Centaur => 1,
        PieceType::Camel => 1,
        PieceType::Giraffe => 1,
        PieceType::Zebra => 1,
        PieceType::Rose => 2,
        PieceType::Huygen => 1,
        PieceType::Chancellor => 2,
        PieceType::Archbishop => 2,
        PieceType::Hawk => 2,
        PieceType::Knightrider => 2,
        PieceType::Amazon => 4,
        PieceType::RoyalQueen => 4,
        PieceType::RoyalCentaur => 2,
        _ => 0,
    }
}

pub open spec fn diag_slider(pt: PieceType) -> bool {
    pt is Bishop || pt is Queen || pt is Archbishop || pt is Amazon || pt is RoyalQueen
}

pub open spec fn ortho_slider(pt: PieceType) -> bool {
    pt is Rook || pt is Queen || pt is Chancellor || pt is Amazon || pt is RoyalQueen
}

pub fn is_diag_slider(pt: PieceType) -> (r: bool)
    ensures
        r == diag_slider(pt),
{
    matches!(
        pt,
        PieceType::Bishop
            | PieceType::Queen
            | PieceType::Archbishop
            | PieceType::Amazon
            | PieceType::RoyalQueen
    )
}

pub fn is_ortho_slider(pt: PieceType) -> (r: bool)
    ensures
        r == ortho_slider(pt),
{
    matches!(
        pt,
        PieceType::Rook
            | PieceType::Queen
            | PieceType::Chancellor
            | PieceType::Amazon
            | PieceType::RoyalQueen
    )
}

/// Evaluation counts every piece that is not White as Black's.
pub open spec fn is_white(p: Piece) -> bool {
    p.color is White
}

/// Whether `p` belongs to the side given by `white`.
pub open spec fn of_side(p: Piece, white: bool) -> bool {
    is_white(p) == white
}

pub open spec fn is_phase(phase: int) -> bool {
    0 <= phase <= MAX_PHASE
}

/// The blend of a middlegame and an endgame weight at a phase.
pub open spec fn tapered(mg: int, eg: int, phase: int) -> int {
    tdiv(mg * phase + eg * (MAX_PHASE - phase), MAX_PHASE as int)
}

pub fn taper(mg: i32, eg: i32, phase: i32) -> (r: i32)
    requires
        0 <= mg <= 1000,
        0 <= eg <= 1000,
        is_phase(phase as int),
    ensures
        r == tapered(mg as int, eg as int, phase as int),
        0 <= r <= 1000,
{
    assert(0 <= mg * phase <= 1000 * phase) by (nonlinear_arith)
        requires
            0 <= mg <= 1000,
            0 <= phase,
    ;
    assert(0 <= eg * (MAX_PHASE - phase) <= 1000 * (MAX_PHASE - phase)) by (nonlinear_arith)
        requires
            0 <= eg <= 1000,
            phase <= MAX_PHASE,
    ;
    (mg * phase + eg * (MAX_PHASE - phase)) / MAX_PHASE
}

/// Whether White's color is meant: White is evaluated as such, any other color
/// as Black.
pub fn piece_is_white(p: Piece) -> (r: bool)
    ensures
        r == is_white(p),
{
    p.color == PlayerColor::White
}

/// A blend is the middlegame weight at full phase and the endgame weight when
/// nothing is left.
pub proof fn blend_ends_at_its_weights(mg: int, eg: int)
    ensures
        tapered(mg, eg, MAX_PHASE as int) == mg,
        tapered(mg, eg, 0) == eg,
{
    assert(mg * 24 + eg * 0 == 24 * mg) by (nonlinear_arith);
    assert(mg * 0 + eg * 24 == 24 * eg) by (nonlinear_arith);
}

/// A blend lies between its weights.
pub proof fn blend_lies_between_its_weights(mg: int, eg: int, phase: int)
    requires
        is_phase(phase),
    ensures
        (if mg <= eg {
            mg
        } else {
            eg
        }) <= tapered(mg, eg, phase) <= (if mg <= eg {
            eg
        } else {
            mg
        }),
{
    let (lo, hi) = if mg <= eg {
        (mg, eg)
    } else {
        (eg, mg)
    };
    let sum = mg * phase + eg * (MAX_PHASE - phase);
    assert(24 * lo <= sum <= 24 * hi) by (nonlinear_arith)
        requires
            sum == mg * phase + eg * (24 - phase),
            lo <= mg <= hi,
            lo <= eg <= hi,
            0 <= phase <= 24,
    ;
}

} // verus!
