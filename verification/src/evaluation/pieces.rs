//! The activity of single pieces, and of all of them together.
use crate::arith::{
    abs, abs_i64, cheb, cheb_i64, clamp, clamp_i32, lemma_sum_step, max, max_i32, max_i64, min,
    min_i32, min_i64, sum_of, tdiv,
};
use crate::board::{Coordinate, Piece, PieceType, PlayerColor};
use crate::evaluation::features::{with_bishop_pair, EvalFeatures};
use crate::evaluation::lines::{clear_line_in, is_clear_line_between_fast};
use crate::evaluation::pawns::{
    has_pawn, has_pawn_at, has_pawn_on_file, on_file, pawn_list, pieces_in_range,
};
use crate::evaluation::tracing::{traced, EvaluationTracer, TraceRow};
use crate::evaluation::values::{
    get_piece_value, in_range, is_phase, is_white, piece_is_white, piece_value, taper, tapered,
    MAX_PIECES,
};
use crate::game::{started_on, GameState};
use crate::moves::SpatialIndices;
use vstd::prelude::*;

verus! {

pub const SLIDER_NET_BONUS: i32 = 20;

/// Sliders farther than this from both kings are penalized, up to a maximum
/// excess.
pub const FAR_SLIDER_CHEB_RADIUS: i64 = 18;

pub const FAR_SLIDER_CHEB_MAX_EXCESS: i64 = 40;

pub const FAR_QUEEN_PENALTY: i32 = 3;

pub const FAR_BISHOP_PENALTY: i32 = 2;

pub const FAR_ROOK_PENALTY: i32 = 2;

/// Pieces farther than this from the centre of the piece cloud are penalized.
pub const PIECE_CLOUD_CHEB_RADIUS: i64 = 16;

/// A slider is active where one of its lines passes this close to the centre.
pub const SLIDER_AXIS_WIGGLE: i64 = 5;

pub const PIECE_CLOUD_CHEB_MAX_EXCESS: i64 = 64;

pub const CLOUD_PENALTY_PER_100_VALUE: i32 = 1;

pub const QUEEN_IDEAL_LINE_DIST: i64 = 4;

pub const QUEEN_MAX_LINE_DIST: i64 = 20;

pub const LEAPER_TROPISM_DIVISOR: i32 = 400;

/// Compounds inherit a percentage of the pieces that they are made of.
pub const CHANCELLOR_ROOK_SCALE: i32 = 90;

pub const ARCHBISHOP_BISHOP_SCALE: i32 = 90;

pub const AMAZON_ROOK_SCALE: i32 = 50;

pub const AMAZON_QUEEN_SCALE: i32 = 70;

pub const CENTAUR_GUARD_SCALE: i32 = 50;

pub const MIN_DEVELOPMENT_PENALTY: i32 = 6;

/// Pieces below this value defend their king, the others should attack.
pub const KING_DEFENDER_VALUE_THRESHOLD: i32 = 400;

pub const MG_BEHIND_KING_BONUS: i32 = 40;

pub const EG_BEHIND_KING_BONUS: i32 = 60;

pub const MG_KING_TROPISM_BONUS: i32 = 4;

pub const EG_KING_TROPISM_BONUS: i32 = 6;

pub const MG_BISHOP_PAIR_BONUS: i32 = 60;

pub const EG_BISHOP_PAIR_BONUS: i32 = 80;

pub const MG_KING_DEFENDER_BONUS: i32 = 6;

pub const EG_KING_DEFENDER_BONUS: i32 = 2;

pub const MG_KING_ATTACKER_NEAR_OWN_KING_PENALTY: i32 = 8;

pub const EG_KING_ATTACKER_NEAR_OWN_KING_PENALTY: i32 = 2;

pub const MG_FAR_SLIDER_PENALTY_MULT: i32 = 100;

pub const EG_FAR_SLIDER_PENALTY_MULT: i32 = 40;

pub const ROOK_OPEN_FILE_BONUS: i32 = 45;

pub const ROOK_SEMI_OPEN_FILE_BONUS: i32 = 20;

pub const QUEEN_OPEN_FILE_BONUS: i32 = 25;

pub const QUEEN_SEMI_OPEN_FILE_BONUS: i32 = 10;

pub const MG_OUTPOST_BONUS: i32 = 20;

pub const EG_OUTPOST_BONUS: i32 = 50;

/// A king's square, where it is known, is in range.
pub open spec fn king_in_range(king: Option<Coordinate>) -> bool {
    king matches Some(k) ==> in_range(k.x as int, k.y as int)
}

pub open spec fn enemy_king_of(
    color: PlayerColor,
    white_king: Option<Coordinate>,
    black_king: Option<Coordinate>,
) -> Option<Coordinate> {
    if color is White {
        black_king
    } else {
        white_king
    }
}

pub open spec fn own_king_of(
    color: PlayerColor,
    white_king: Option<Coordinate>,
    black_king: Option<Coordinate>,
) -> Option<Coordinate> {
    if color is White {
        white_king
    } else {
        black_king
    }
}

/// Whether rank `y` is past the enemy king, as `color` moves.
pub open spec fn behind_king(color: PlayerColor, y: int, enemy_king: Coordinate) -> bool {
    (color is White && y > enemy_king.y) || (color is Black && y < enemy_king.y)
}

/// The distance to the enemy king, or to the own king where that is nearer.
pub open spec fn zone_distance(
    x: int,
    y: int,
    enemy_king: Coordinate,
    own_king: Option<Coordinate>,
) -> int {
    let to_enemy = cheb(x, y, enemy_king.x as int, enemy_king.y as int);
    match own_king {
        Some(k) => min(to_enemy, cheb(x, y, k.x as int, k.y as int)),
        None => to_enemy,
    }
}

/// The penalty for being far from both kings.
pub open spec fn far_penalty(dist: int, weight: int) -> int {
    if dist > FAR_SLIDER_CHEB_RADIUS {
        min(dist - FAR_SLIDER_CHEB_RADIUS, FAR_SLIDER_CHEB_MAX_EXCESS as int) * weight
    } else {
        0
    }
}

/// The bonus for a file without own pawns.
pub open spec fn file_bonus(
    x: int,
    own: Seq<(i64, i64)>,
    enemy: Seq<(i64, i64)>,
    open: int,
    semi_open: int,
) -> int {
    if on_file(own, x) {
        0
    } else if on_file(enemy, x) {
        semi_open
    } else {
        open
    }
}

/// Whether an own pawn protects `(x, y)`.
pub open spec fn pawn_supported(x: int, y: int, color: PlayerColor, own: Seq<(i64, i64)>) -> bool {
    let support_y = if color is White {
        y - 1
    } else {
        y + 1
    };
    has_pawn(own, x - 1, support_y) || has_pawn(own, x + 1, support_y)
}

fn zone_distance_of(
    x: i64,
    y: i64,
    enemy_king: &Coordinate,
    own_king: &Option<Coordinate>,
) -> (r: i64)
    requires
        in_range(x as int, y as int),
        in_range(enemy_king.x as int, enemy_king.y as int),
        king_in_range(*own_king),
    ensures
        r == zone_distance(x as int, y as int, *enemy_king, *own_king),
        0 <= r,
{
    let to_enemy: i64 = cheb_i64(x, y, enemy_king.x, enemy_king.y);
    match own_king {
        Some(k) => min_i64(to_enemy, cheb_i64(x, y, k.x, k.y)),
        None => to_enemy,
    }
}

fn far_penalty_of(dist: i64, weight: i32) -> (r: i32)
    requires
        0 <= weight <= 3,
        0 <= dist,
    ensures
        r == far_penalty(dist as int, weight as int),
        0 <= r <= 120,
{
    if dist > FAR_SLIDER_CHEB_RADIUS {
        let excess: i32 = min_i64(dist - FAR_SLIDER_CHEB_RADIUS, FAR_SLIDER_CHEB_MAX_EXCESS) as i32;
        assert(0 <= excess * weight <= 120) by (nonlinear_arith)
            requires
                0 <= excess <= 40,
                0 <= weight <= 3,
        ;
        excess * weight
    } else {
        0
    }
}

fn file_bonus_of(
    x: i64,
    own: &[(i64, i64)],
    enemy: &[(i64, i64)],
    open: i32,
    semi_open: i32,
) -> (r: i32)
    requires
        pawn_list(own@),
        pawn_list(enemy@),
    ensures
        r == file_bonus(x as int, own@, enemy@, open as int, semi_open as int),
{
    if has_pawn_on_file(own, x) {
        0
    } else if has_pawn_on_file(enemy, x) {
        semi_open
    } else {
        open
    }
}

fn is_pawn_supported(x: i64, y: i64, color: PlayerColor, own: &[(i64, i64)]) -> (r: bool)
    requires
        in_range(x as int, y as int),
        pawn_list(own@),
    ensures
        r == pawn_supported(x as int, y as int, color, own@),
{
    let support_y: i64 = if color == PlayerColor::White {
        y - 1
    } else {
        y + 1
    };
    has_pawn_at(own, x - 1, support_y) || has_pawn_at(own, x + 1, support_y)
}

/// What a rook gains from its place relative to the enemy king.
pub open spec fn rook_king_bonus(
    x: int,
    y: int,
    color: PlayerColor,
    ek: Coordinate,
    own_king: Option<Coordinate>,
    phase: int,
) -> int {
    let dx = abs(x - ek.x);
    let dy = abs(y - ek.y);
    (if behind_king(color, y, ek) {
        tapered(MG_BEHIND_KING_BONUS as int, EG_BEHIND_KING_BONUS as int, phase)
    } else {
        0
    }) + (if dx <= 1 {
        50int
    } else {
        0
    }) + (if dy == 0 && dx <= 3 {
        30int
    } else {
        0
    }) + (if dx == 0 && dy <= 3 {
        30int
    } else {
        0
    }) + (if dx <= 1 && dy <= 1 {
        40int
    } else {
        0
    }) + (if dx <= 4 && dy <= 4 {
        10int
    } else {
        0
    }) - far_penalty(zone_distance(x, y, ek, own_king), FAR_ROOK_PENALTY as int)
}

pub open spec fn rook_score(
    x: int,
    y: int,
    color: PlayerColor,
    white_king: Option<Coordinate>,
    black_king: Option<Coordinate>,
    phase: int,
    white_pawns: Seq<(i64, i64)>,
    black_pawns: Seq<(i64, i64)>,
) -> int {
    let (own, enemy) = if color is White {
        (white_pawns, black_pawns)
    } else {
        (black_pawns, white_pawns)
    };
    (match enemy_king_of(color, white_king, black_king) {
        Some(ek) => rook_king_bonus(
            x,
            y,
            color,
            ek,
            own_king_of(color, white_king, black_king),
            phase,
        ),
        None => 0,
    }) + file_bonus(
        x,
        own,
        enemy,
        ROOK_OPEN_FILE_BONUS as int,
        ROOK_SEMI_OPEN_FILE_BONUS as int,
    )
}

/// The activity of a rook: behind or next to the enemy king, near either king,
/// on a file without pawns.
pub fn evaluate_rook(
    _game: &GameState,
    x: i64,
    y: i64,
    color: PlayerColor,
    white_king: &Option<Coordinate>,
    black_king: &Option<Coordinate>,
    phase: i32,
    white_pawns: &[(i64, i64)],
    black_pawns: &[(i64, i64)],
) -> (r: i32)
    requires
        in_range(x as int, y as int),
        king_in_range(*white_king),
        king_in_range(*black_king),
        is_phase(phase as int),
        pawn_list(white_pawns@),
        pawn_list(black_pawns@),
    ensures
        r == rook_score(
            x as int,
            y as int,
            color,
            *white_king,
            *black_king,
            phase as int,
            white_pawns@,
            black_pawns@,
        ),
        -80 <= r <= 265,
{
    let white = color == PlayerColor::White;
    let (enemy_king, own_king) = if white {
        (black_king, white_king)
    } else {
        (white_king, black_king)
    };
    let mut bonus: i32 = 0;
    if let Some(ek) = enemy_king {
        let dx: i64 = abs_i64(x - ek.x);
        let dy: i64 = abs_i64(y - ek.y);
        if (white && y > ek.y) || (color == PlayerColor::Black && y < ek.y) {
            bonus += taper(MG_BEHIND_KING_BONUS, EG_BEHIND_KING_BONUS, phase);
        }
        assert(0 <= bonus <= 60);
        if dx <= 1 {
            bonus += 50;
        }
        let mut confinement_bonus: i32 = 0;
        if dy == 0 && dx <= 3 {
            confinement_bonus += 30;
        }
        if dx == 0 && dy <= 3 {
            confinement_bonus += 30;
        }
        if dx <= 1 && dy <= 1 {
            confinement_bonus += 40;
        }
        bonus += confinement_bonus;
        if dx <= 4 && dy <= 4 {
            bonus += SLIDER_NET_BONUS / 2;
        }
        bonus -= far_penalty_of(zone_distance_of(x, y, ek, own_king), FAR_ROOK_PENALTY);
    }
    let files: i32 = if white {
        file_bonus_of(
            x,
            white_pawns,
            black_pawns,
            ROOK_OPEN_FILE_BONUS,
            ROOK_SEMI_OPEN_FILE_BONUS,
        )
    } else {
        file_bonus_of(
            x,
            black_pawns,
            white_pawns,
            ROOK_OPEN_FILE_BONUS,
            ROOK_SEMI_OPEN_FILE_BONUS,
        )
    };
    bonus + files
}

/// The bonus for a clear line from a queen to the enemy king; the distance is
/// taken as a 32-bit number, as the score counts it.
pub open spec fn queen_line_bonus(
    x: int,
    y: int,
    color: PlayerColor,
    ek: Coordinate,
    phase: int,
) -> int {
    let dist = (max(abs(ek.x - x), abs(ek.y - y)) as i32) as int;
    let diff = abs(min(dist, QUEEN_MAX_LINE_DIST as int) - QUEEN_IDEAL_LINE_DIST);
    let base = max(QUEEN_MAX_LINE_DIST - diff * 2, 0);
    15 + base * max(
        tdiv(
            tapered(MG_KING_TROPISM_BONUS as int, EG_KING_TROPISM_BONUS as int, phase),
            2,
        ),
        1,
    ) + (if behind_king(color, y, ek) {
        10int
    } else {
        0
    })
}

pub open spec fn queen_score(
    indices: SpatialIndices,
    x: i64,
    y: i64,
    color: PlayerColor,
    white_king: Option<Coordinate>,
    black_king: Option<Coordinate>,
    phase: int,
    white_pawns: Seq<(i64, i64)>,
    black_pawns: Seq<(i64, i64)>,
) -> int {
    let (own, enemy) = if color is White {
        (white_pawns, black_pawns)
    } else {
        (black_pawns, white_pawns)
    };
    (match enemy_king_of(color, white_king, black_king) {
        Some(ek) => (if clear_line_in(indices, Coordinate { x, y }, ek) {
            queen_line_bonus(x as int, y as int, color, ek, phase)
        } else {
            0
        }) - far_penalty(
            zone_distance(
                x as int,
                y as int,
                ek,
                own_king_of(color, white_king, black_king),
            ),
            FAR_QUEEN_PENALTY as int,
        ),
        None => 0,
    }) + file_bonus(
        x as int,
        own,
        enemy,
        QUEEN_OPEN_FILE_BONUS as int,
        QUEEN_SEMI_OPEN_FILE_BONUS as int,
    )
}

/// The activity of a queen: a clear line to the enemy king from a good
/// distance, near either king, on a file without pawns.
pub fn evaluate_queen(
    game: &GameState,
    x: i64,
    y: i64,
    color: PlayerColor,
    white_king: &Option<Coordinate>,
    black_king: &Option<Coordinate>,
    phase: i32,
    white_pawns: &[(i64, i64)],
    black_pawns: &[(i64, i64)],
) -> (r: i32)
    requires
        game.spatial_indices.wf(),
        in_range(x as int, y as int),
        king_in_range(*white_king),
        king_in_range(*black_king),
        is_phase(phase as int),
        pawn_list(white_pawns@),
        pawn_list(black_pawns@),
    ensures
        r == queen_score(
            game.spatial_indices,
            x,
            y,
            color,
            *white_king,
            *black_king,
            phase as int,
            white_pawns@,
            black_pawns@,
        ),
        -120 <= r <= 110,
{
    let white = color == PlayerColor::White;
    let (enemy_king, own_king) = if white {
        (black_king, white_king)
    } else {
        (white_king, black_king)
    };
    let mut bonus: i32 = 0;
    if let Some(ek) = enemy_king {
        let dx: i64 = ek.x - x;
        let dy: i64 = ek.y - y;
        let from = Coordinate { x, y };
        if is_clear_line_between_fast(&game.spatial_indices, &from, ek) {
            let lin_dist: i32 = #[verifier::truncate]
            (max_i64(abs_i64(dx), abs_i64(dy)) as i32);
            let clamped: i64 = min_i64(lin_dist as i64, QUEEN_MAX_LINE_DIST);
            let diff: i64 = abs_i64(clamped - QUEEN_IDEAL_LINE_DIST);
            let base: i32 = max_i64(QUEEN_MAX_LINE_DIST - diff * 2, 0) as i32;
            let weight: i32 = max_i32(
                taper(MG_KING_TROPISM_BONUS, EG_KING_TROPISM_BONUS, phase) / 2,
                1,
            );
            assert(0 <= base * weight <= 60) by (nonlinear_arith)
                requires
                    0 <= base <= 20,
                    1 <= weight <= 3,
            ;
            bonus += 15 + base * weight;
            if (white && y > ek.y) || (color == PlayerColor::Black && y < ek.y) {
                bonus += 10;
            }
            assert(bonus == queen_line_bonus(x as int, y as int, color, *ek, phase as int));
        }
        bonus -= far_penalty_of(zone_distance_of(x, y, ek, own_king), FAR_QUEEN_PENALTY);
    }
    let files: i32 = if white {
        file_bonus_of(
            x,
            white_pawns,
            black_pawns,
            QUEEN_OPEN_FILE_BONUS,
            QUEEN_SEMI_OPEN_FILE_BONUS,
        )
    } else {
        file_bonus_of(
            x,
            black_pawns,
            white_pawns,
            QUEEN_OPEN_FILE_BONUS,
            QUEEN_SEMI_OPEN_FILE_BONUS,
        )
    };
    bonus + files
}

pub open spec fn bishop_score(
    x: int,
    y: int,
    color: PlayerColor,
    white_king: Option<Coordinate>,
    black_king: Option<Coordinate>,
    phase: int,
    white_pawns: Seq<(i64, i64)>,
    black_pawns: Seq<(i64, i64)>,
) -> int {
    let own = if color is White {
        white_pawns
    } else {
        black_pawns
    };
    (if abs(x - y) <= 1 || abs(x + y - 8) <= 1 {
        8int
    } else {
        0
    }) + (match enemy_king_of(color, white_king, black_king) {
        Some(ek) => (if behind_king(color, y, ek) {
            tdiv(tapered(MG_BEHIND_KING_BONUS as int, EG_BEHIND_KING_BONUS as int, phase), 2)
        } else {
            0
        }) - far_penalty(
            zone_distance(x, y, ek, own_king_of(color, white_king, black_king)),
            FAR_BISHOP_PENALTY as int,
        ),
        None => 0,
    }) + (if pawn_supported(x, y, color, own) {
        tapered(MG_OUTPOST_BONUS as int, EG_OUTPOST_BONUS as int, phase)
    } else {
        0
    })
}

/// The activity of a bishop: on a main diagonal, behind the enemy king, near
/// either king, supported by a pawn.
pub fn evaluate_bishop(
    _game: &GameState,
    x: i64,
    y: i64,
    color: PlayerColor,
    white_king: &Option<Coordinate>,
    black_king: &Option<Coordinate>,
    phase: i32,
    white_pawns: &[(i64, i64)],
    black_pawns: &[(i64, i64)],
) -> (r: i32)
    requires
        in_range(x as int, y as int),
        king_in_range(*white_king),
        king_in_range(*black_king),
        is_phase(phase as int),
        pawn_list(white_pawns@),
        pawn_list(black_pawns@),
    ensures
        r == bishop_score(
            x as int,
            y as int,
            color,
            *white_king,
            *black_king,
            phase as int,
            white_pawns@,
            black_pawns@,
        ),
        -80 <= r <= 88,
{
    let white = color == PlayerColor::White;
    let (enemy_king, own_king) = if white {
        (black_king, white_king)
    } else {
        (white_king, black_king)
    };
    let mut bonus: i32 = 0;
    if abs_i64(x - y) <= 1 || abs_i64(x + y - 8) <= 1 {
        bonus += 8;
    }
    if let Some(ek) = enemy_king {
        if (white && y > ek.y) || (color == PlayerColor::Black && y < ek.y) {
            bonus += taper(MG_BEHIND_KING_BONUS, EG_BEHIND_KING_BONUS, phase) / 2;
        }
        bonus -= far_penalty_of(zone_distance_of(x, y, ek, own_king), FAR_BISHOP_PENALTY);
    }
    let own = if white {
        white_pawns
    } else {
        black_pawns
    };
    if is_pawn_supported(x, y, color, own) {
        bonus += taper(MG_OUTPOST_BONUS, EG_OUTPOST_BONUS, phase);
    }
    bonus
}

/// The centre of the piece cloud leaves room for the arithmetic around it.
pub open spec fn center_fits(c: Coordinate) -> bool {
    -0x2000_0000_0000_0000 <= c.x <= 0x2000_0000_0000_0000 && -0x2000_0000_0000_0000 <= c.y
        <= 0x2000_0000_0000_0000
}

/// The bonus of a leaper for being near the centre of the piece cloud.
pub open spec fn leaper_score(x: int, y: int, center: Option<Coordinate>, value: int) -> int {
    match center {
        Some(c) => {
            let dist = cheb(x, y, c.x as int, c.y as int);
            if dist <= 10 {
                (11 - dist) * max(tdiv(max(tdiv(value, LEAPER_TROPISM_DIVISOR as int), 1), 3), 1)
            } else {
                0
            }
        },
        None => 0,
    }
}

/// The activity of a leaper, whose mobility says nothing on an unbounded
/// board.
pub fn evaluate_leaper_positioning(
    x: i64,
    y: i64,
    _color: PlayerColor,
    cloud_center: Option<&Coordinate>,
    piece_value: i32,
) -> (r: i32)
    requires
        cloud_center matches Some(c) ==> {
            &&& i64::MIN < x - c.x <= i64::MAX
            &&& i64::MIN < y - c.y <= i64::MAX
        },
    ensures
        r == leaper_score(
            x as int,
            y as int,
            match cloud_center {
                Some(c) => Some(*c),
                None => None,
            },
            piece_value as int,
        ),
        piece_value <= 2399 ==> 0 <= r <= 11,
{
    let scale: i32 = max_i32(piece_value / LEAPER_TROPISM_DIVISOR, 1);
    let weight: i32 = max_i32(scale / 3, 1);
    match cloud_center {
        Some(center) => {
            let dist: i64 = cheb_i64(x, y, center.x, center.y);
            if dist <= 10 {
                let near: i32 = 11 - dist as i32;
                assert(0 <= near * weight <= 11 * weight) by (nonlinear_arith)
                    requires
                        1 <= near <= 11,
                        1 <= weight,
                ;
                near * weight
            } else {
                0
            }
        },
        None => 0,
    }
}

pub open spec fn knight_score(
    x: int,
    y: int,
    color: PlayerColor,
    center: Option<Coordinate>,
    phase: int,
    white_pawns: Seq<(i64, i64)>,
    black_pawns: Seq<(i64, i64)>,
) -> int {
    let own = if color is White {
        white_pawns
    } else {
        black_pawns
    };
    leaper_score(x, y, center, piece_value(PieceType::Knight)) + (if pawn_supported(
        x,
        y,
        color,
        own,
    ) {
        tapered(MG_OUTPOST_BONUS as int, EG_OUTPOST_BONUS as int, phase)
    } else {
        0
    })
}

/// The activity of a knight: that of a leaper, and support by a pawn.
pub fn evaluate_knight(
    x: i64,
    y: i64,
    color: PlayerColor,
    cloud_center: Option<&Coordinate>,
    phase: i32,
    white_pawns: &[(i64, i64)],
    black_pawns: &[(i64, i64)],
) -> (r: i32)
    requires
        in_range(x as int, y as int),
        is_phase(phase as int),
        pawn_list(white_pawns@),
        pawn_list(black_pawns@),
        cloud_center matches Some(c) ==> center_fits(*c),
    ensures
        r == knight_score(
            x as int,
            y as int,
            color,
            match cloud_center {
                Some(c) => Some(*c),
                None => None,
            },
            phase as int,
            white_pawns@,
            black_pawns@,
        ),
        0 <= r <= 61,
{
    let mut bonus: i32 = evaluate_leaper_positioning(
        x,
        y,
        color,
        cloud_center,
        get_piece_value(PieceType::Knight),
    );
    let own = if color == PlayerColor::White {
        white_pawns
    } else {
        black_pawns
    };
    if is_pawn_supported(x, y, color, own) {
        bonus += taper(MG_OUTPOST_BONUS, EG_OUTPOST_BONUS, phase);
    }
    bonus
}

/// What the activity of a piece depends on.
pub struct PieceSetting {
    pub indices: SpatialIndices,
    pub starts: Seq<Coordinate>,
    pub white_king: Option<Coordinate>,
    pub black_king: Option<Coordinate>,
    pub phase: int,
    pub center: Option<Coordinate>,
    pub white_pawns: Seq<(i64, i64)>,
    pub black_pawns: Seq<(i64, i64)>,
    pub white_ready: int,
    pub black_ready: int,
}

/// Whether a kind of piece moves along ranks and files only.
pub open spec fn ortho_only(pt: PieceType) -> bool {
    pt is Rook || pt is Chancellor
}

/// Whether a kind of piece moves along diagonals only.
pub open spec fn diag_only(pt: PieceType) -> bool {
    pt is Bishop || pt is Archbishop
}

/// Whether a kind of piece moves along all lines and is not royal.
pub open spec fn queen_like(pt: PieceType) -> bool {
    pt is Queen || pt is Amazon
}

/// How far the nearest line of a slider passes the centre.
pub open spec fn lane_distance(pt: PieceType, x: int, y: int, c: Coordinate) -> int {
    let ortho = min(abs(x - c.x), abs(y - c.y));
    let diag = min(abs((x - y) - (c.x - c.y)), abs((x + y) - (c.x + c.y)));
    if queen_like(pt) {
        min(ortho, diag)
    } else if ortho_only(pt) {
        ortho
    } else {
        diag
    }
}

/// The penalty for a piece outside the piece cloud: for a slider by how far
/// its lines miss the centre, for others by distance.
pub open spec fn cloud_penalty(pt: PieceType, x: int, y: int, c: Coordinate, phase: int) -> int {
    let dist = cheb(x, y, c.x as int, c.y as int);
    let factor = max(tdiv(piece_value(pt), 100), 1);
    let mult = tapered(
        MG_FAR_SLIDER_PENALTY_MULT as int,
        EG_FAR_SLIDER_PENALTY_MULT as int,
        phase,
    );
    let excess = if ortho_only(pt) || diag_only(pt) || queen_like(pt) {
        lane_distance(pt, x, y, c) - SLIDER_AXIS_WIGGLE
    } else {
        dist - PIECE_CLOUD_CHEB_RADIUS
    };
    if pt is Pawn || pt.royal() || dist <= PIECE_CLOUD_CHEB_RADIUS || excess <= 0 {
        0
    } else {
        tdiv(min(excess, PIECE_CLOUD_CHEB_MAX_EXCESS as int) * factor * mult, 100)
    }
}

/// The penalty for a minor piece on a starting square.
pub open spec fn development_penalty(starts: Seq<Coordinate>, pt: PieceType, x: int, y: int) -> int {
    if !started_on(starts, x, y) {
        0
    } else if pt is Knight || pt is Bishop {
        MIN_DEVELOPMENT_PENALTY + 3
    } else if pt is Archbishop {
        MIN_DEVELOPMENT_PENALTY as int
    } else {
        0
    }
}

/// Cheap pieces near their own king defend it, expensive ones are misplaced.
pub open spec fn own_king_term(
    pt: PieceType,
    x: int,
    y: int,
    own_king: Option<Coordinate>,
    phase: int,
) -> int {
    match own_king {
        Some(k) => if pt.royal() || pt is Pawn || cheb(x, y, k.x as int, k.y as int) > 3 {
            0
        } else if piece_value(pt) < KING_DEFENDER_VALUE_THRESHOLD {
            tapered(MG_KING_DEFENDER_BONUS as int, EG_KING_DEFENDER_BONUS as int, phase)
        } else {
            -tapered(
                MG_KING_ATTACKER_NEAR_OWN_KING_PENALTY as int,
                EG_KING_ATTACKER_NEAR_OWN_KING_PENALTY as int,
                phase,
            )
        },
        None => 0,
    }
}

/// The sliders whose activity counts only as far as the attack is ready.
pub open spec fn attacking(pt: PieceType) -> bool {
    pt is Rook || pt is Queen || pt is RoyalQueen || pt is Bishop || pt is Chancellor
        || pt is Archbishop || pt is Amazon
}

impl PieceSetting {
    pub open spec fn wf(self) -> bool {
        &&& self.indices.wf()
        &&& king_in_range(self.white_king)
        &&& king_in_range(self.black_king)
        &&& is_phase(self.phase)
        &&& pawn_list(self.white_pawns)
        &&& pawn_list(self.black_pawns)
        &&& self.center matches Some(c) ==> center_fits(c)
        &&& 0 <= self.white_ready <= 100
        &&& 0 <= self.black_ready <= 100
    }

    /// The activity that a piece has from its own moves.
    pub open spec fn base_activity(self, p: (i64, i64, Piece)) -> int {
        let (x, y, piece) = p;
        let rook = rook_score(
            x as int,
            y as int,
            piece.color,
            self.white_king,
            self.black_king,
            self.phase,
            self.white_pawns,
            self.black_pawns,
        );
        let bishop = bishop_score(
            x as int,
            y as int,
            piece.color,
            self.white_king,
            self.black_king,
            self.phase,
            self.white_pawns,
            self.black_pawns,
        );
        let queen = queen_score(
            self.indices,
            x,
            y,
            piece.color,
            self.white_king,
            self.black_king,
            self.phase,
            self.white_pawns,
            self.black_pawns,
        );
        let leaper = leaper_score(x as int, y as int, self.center, piece_value(piece.piece_type));
        match piece.piece_type {
            PieceType::Rook => rook,
            PieceType::Queen | PieceType::RoyalQueen => queen,
            PieceType::Bishop => bishop,
            PieceType::Chancellor => tdiv(rook * CHANCELLOR_ROOK_SCALE, 100),
            PieceType::Archbishop => tdiv(bishop * ARCHBISHOP_BISHOP_SCALE, 100),
            PieceType::Amazon => tdiv(queen * AMAZON_QUEEN_SCALE, 100) + tdiv(
                rook * AMAZON_ROOK_SCALE,
                100,
            ),
            PieceType::Knight => knight_score(
                x as int,
                y as int,
                piece.color,
                self.center,
                self.phase,
                self.white_pawns,
                self.black_pawns,
            ),
            PieceType::Centaur | PieceType::RoyalCentaur => tdiv(leaper * CENTAUR_GUARD_SCALE, 100),
            PieceType::Hawk | PieceType::Rose | PieceType::Camel | PieceType::Giraffe => leaper,
            PieceType::Zebra | PieceType::Huygen | PieceType::Guard => leaper,
            PieceType::Void | PieceType::Obstacle | PieceType::King | PieceType::Pawn => 0,
            PieceType::Knightrider => 0,
        }
    }

    /// The activity before it is scaled by the readiness of the attack.
    pub open spec fn raw_activity(self, p: (i64, i64, Piece)) -> int {
        let pt = p.2.piece_type;
        self.base_activity(p) - (match self.center {
            Some(c) => cloud_penalty(pt, p.0 as int, p.1 as int, c, self.phase),
            None => 0,
        }) - development_penalty(self.starts, pt, p.0 as int, p.1 as int) + own_king_term(
            pt,
            p.0 as int,
            p.1 as int,
            own_king_of(p.2.color, self.white_king, self.black_king),
            self.phase,
        )
    }

    pub open spec fn activity(self, p: (i64, i64, Piece)) -> int {
        let raw = self.raw_activity(p);
        if attacking(p.2.piece_type) && raw > 0 {
            tdiv(
                raw * (if is_white(p.2) {
                    self.white_ready
                } else {
                    self.black_ready
                }),
                100,
            )
        } else {
            raw
        }
    }

    /// The activity of the pieces of one side.
    pub open spec fn activity_term(self, white: bool) -> spec_fn((i64, i64, Piece)) -> int {
        |p: (i64, i64, Piece)|
            if is_white(p.2) == white {
                self.activity(p)
            } else {
                0
            }
    }
}

fn cloud_penalty_of(pt: PieceType, x: i64, y: i64, center: &Coordinate, phase: i32) -> (r: i32)
    requires
        in_range(x as int, y as int),
        center_fits(*center),
        is_phase(phase as int),
    ensures
        r == cloud_penalty(pt, x as int, y as int, *center, phase as int),
        0 <= r <= 1024,
{
    let dist: i64 = cheb_i64(x, y, center.x, center.y);
    if pt == PieceType::Pawn || pt.is_royal() || dist <= PIECE_CLOUD_CHEB_RADIUS {
        return 0;
    }
    let is_ortho = pt == PieceType::Rook || pt == PieceType::Chancellor;
    let is_diag = pt == PieceType::Bishop || pt == PieceType::Archbishop;
    let is_queen = pt == PieceType::Queen || pt == PieceType::Amazon;
    let factor: i32 = max_i32(get_piece_value(pt) / 100, 1);
    let mult: i32 = taper(MG_FAR_SLIDER_PENALTY_MULT, EG_FAR_SLIDER_PENALTY_MULT, phase);
    assert(1 <= factor <= 16);
    assert(0 <= mult <= 100);
    let excess: i64 = if is_ortho || is_diag || is_queen {
        let ortho: i64 = min_i64(abs_i64(x - center.x), abs_i64(y - center.y));
        let diag: i64 = min_i64(
            abs_i64((x - y) - (center.x - center.y)),
            abs_i64((x + y) - (center.x + center.y)),
        );
        let lane: i64 = if is_queen {
            min_i64(ortho, diag)
        } else if is_ortho {
            ortho
        } else {
            diag
        };
        lane - SLIDER_AXIS_WIGGLE
    } else {
        dist - PIECE_CLOUD_CHEB_RADIUS
    };
    if excess <= 0 {
        return 0;
    }
    let capped: i32 = min_i64(excess, PIECE_CLOUD_CHEB_MAX_EXCESS) as i32;
    assert(0 <= capped * factor <= 1024) by (nonlinear_arith)
        requires
            0 <= capped <= 64,
            1 <= factor <= 16,
    ;
    let product: i32 = capped * CLOUD_PENALTY_PER_100_VALUE * factor;
    assert(0 <= product * mult <= 102400) by (nonlinear_arith)
        requires
            0 <= product <= 1024,
            0 <= mult <= 100,
    ;
    product * mult / 100
}

/// What a piece's placement is worth by its own kind.
fn base_activity_of(
    game: &GameState,
    white_king: &Option<Coordinate>,
    black_king: &Option<Coordinate>,
    phase: i32,
    cloud_center: &Option<Coordinate>,
    white_pawns: &[(i64, i64)],
    black_pawns: &[(i64, i64)],
    p: (i64, i64, Piece),
    Ghost(st): Ghost<PieceSetting>,
) -> (r: i32)
    requires
        st.wf(),
        st.indices == game.spatial_indices,
        st.white_king == *white_king,
        st.black_king == *black_king,
        st.phase == phase,
        st.center == *cloud_center,
        st.white_pawns == white_pawns@,
        st.black_pawns == black_pawns@,
        in_range(p.0 as int, p.1 as int),
    ensures
        r == st.base_activity(p),
        -130 <= r <= 265,
{
    let (x, y, piece) = p;
    let pt = piece.piece_type;
    let color = piece.color;
    let center_ref = match cloud_center {
        Some(c) => Some(c),
        None => None,
    };
    match pt {
        PieceType::Rook => evaluate_rook(
            game,
            x,
            y,
            color,
            white_king,
            black_king,
            phase,
            white_pawns,
            black_pawns,
        ),
        PieceType::Queen | PieceType::RoyalQueen => evaluate_queen(
            game,
            x,
            y,
            color,
            white_king,
            black_king,
            phase,
            white_pawns,
            black_pawns,
        ),
        PieceType::Bishop => evaluate_bishop(
            game,
            x,
            y,
            color,
            white_king,
            black_king,
            phase,
            white_pawns,
            black_pawns,
        ),
        PieceType::Chancellor => evaluate_rook(
            game,
            x,
            y,
            color,
            white_king,
            black_king,
            phase,
            white_pawns,
            black_pawns,
        ) * CHANCELLOR_ROOK_SCALE / 100,
        PieceType::Archbishop => evaluate_bishop(
            game,
            x,
            y,
            color,
            white_king,
            black_king,
            phase,
            white_pawns,
            black_pawns,
        ) * ARCHBISHOP_BISHOP_SCALE / 100,
        PieceType::Amazon => {
            let queen_eval: i32 = evaluate_queen(
                game,
                x,
                y,
                color,
                white_king,
                black_king,
                phase,
                white_pawns,
                black_pawns,
            );
            let rook_eval: i32 = evaluate_rook(
                game,
                x,
                y,
                color,
                white_king,
                black_king,
                phase,
                white_pawns,
                black_pawns,
            );
            (queen_eval * AMAZON_QUEEN_SCALE / 100) + (rook_eval * AMAZON_ROOK_SCALE / 100)
        },
        PieceType::Knight => evaluate_knight(
            x,
            y,
            color,
            center_ref,
            phase,
            white_pawns,
            black_pawns,
        ),
        PieceType::Centaur | PieceType::RoyalCentaur => evaluate_leaper_positioning(
            x,
            y,
            color,
            center_ref,
            get_piece_value(pt),
        ) * CENTAUR_GUARD_SCALE / 100,
        PieceType::Hawk
        | PieceType::Rose
        | PieceType::Camel
        | PieceType::Giraffe
        | PieceType::Zebra
        | PieceType::Huygen
        | PieceType::Guard => evaluate_leaper_positioning(
            x,
            y,
            color,
            center_ref,
            get_piece_value(pt),
        ),
        _ => 0,
    }
}

/// The activity of one piece.
fn piece_activity(
    game: &GameState,
    white_king: &Option<Coordinate>,
    black_king: &Option<Coordinate>,
    phase: i32,
    cloud_center: &Option<Coordinate>,
    white_attack_ready: i32,
    black_attack_ready: i32,
    white_pawns: &[(i64, i64)],
    black_pawns: &[(i64, i64)],
    p: (i64, i64, Piece),
    Ghost(st): Ghost<PieceSetting>,
) -> (r: i32)
    requires
        st.wf(),
        st.indices == game.spatial_indices,
        st.starts == game.starting_squares@,
        st.white_king == *white_king,
        st.black_king == *black_king,
        st.phase == phase,
        st.center == *cloud_center,
        st.white_ready == white_attack_ready,
        st.black_ready == black_attack_ready,
        st.white_pawns == white_pawns@,
        st.black_pawns == black_pawns@,
        in_range(p.0 as int, p.1 as int),
    ensures
        r == st.activity(p),
        -1300 <= r <= 300,
{
    let (x, y, piece) = p;
    let pt = piece.piece_type;
    let base: i32 = base_activity_of(
        game,
        white_king,
        black_king,
        phase,
        cloud_center,
        white_pawns,
        black_pawns,
        p,
        Ghost(st),
    );
    let cloud: i32 = match cloud_center {
        Some(center) => cloud_penalty_of(pt, x, y, center, phase),
        None => 0,
    };
    let development: i32 = if game.is_starting_square(x, y) {
        match pt {
            PieceType::Knight | PieceType::Bishop => MIN_DEVELOPMENT_PENALTY + 3,
            PieceType::Archbishop => MIN_DEVELOPMENT_PENALTY,
            _ => 0,
        }
    } else {
        0
    };
    let white = piece_is_white(piece);
    let own_king = if white {
        white_king
    } else {
        black_king
    };
    let mut near_king: i32 = 0;
    if let Some(ok) = own_king {
        if !pt.is_royal() && pt != PieceType::Pawn && cheb_i64(x, y, ok.x, ok.y) <= 3 {
            if get_piece_value(pt) < KING_DEFENDER_VALUE_THRESHOLD {
                near_king = taper(MG_KING_DEFENDER_BONUS, EG_KING_DEFENDER_BONUS, phase);
            } else {
                near_king =
                -taper(
                    MG_KING_ATTACKER_NEAR_OWN_KING_PENALTY,
                    EG_KING_ATTACKER_NEAR_OWN_KING_PENALTY,
                    phase,
                );
            }
        }
    }
    assert(-8 <= near_king <= 8);
    let raw: i32 = base - cloud - development + near_king;
    assert(raw == st.raw_activity(p));
    let is_attacking_piece = matches!(
        pt,
        PieceType::Rook
            | PieceType::Queen
            | PieceType::RoyalQueen
            | PieceType::Bishop
            | PieceType::Chancellor
            | PieceType::Archbishop
            | PieceType::Amazon
    );
    if is_attacking_piece && raw > 0 {
        let scale: i32 = if white {
            white_attack_ready
        } else {
            black_attack_ready
        };
        assert(0 <= raw * scale <= 100 * raw) by (nonlinear_arith)
            requires
                0 <= raw,
                0 <= scale <= 100,
        ;
        raw * scale / 100
    } else {
        raw
    }
}

/// What the first pass over the pieces found out about minor pieces.
pub struct PieceMetrics {
    pub white_undeveloped: i32,
    pub black_undeveloped: i32,
    pub white_bishops: i32,
    pub black_bishops: i32,
    pub white_bishop_colors: (bool, bool),
    pub black_bishop_colors: (bool, bool),
    pub cloud_center: Option<Coordinate>,
}

/// Undeveloped minor pieces hold an attack back.
pub open spec fn readiness_cap(ready: int, undeveloped: int) -> int {
    min(ready, clamp(100 - undeveloped * 25, 30, 100))
}

/// The bonus for two bishops, more where they stand on both colors.
pub open spec fn bishop_pair(bishops: int, colors: (bool, bool), phase: int) -> int {
    if bishops >= 2 {
        tapered(MG_BISHOP_PAIR_BONUS as int, EG_BISHOP_PAIR_BONUS as int, phase) + (if colors.0
            && colors.1 {
            20int
        } else {
            0
        })
    } else {
        0
    }
}

pub open spec fn piece_setting(
    game: GameState,
    white_king: Option<Coordinate>,
    black_king: Option<Coordinate>,
    phase: int,
    metrics: PieceMetrics,
    white_attack_ready: int,
    black_attack_ready: int,
    white_pawns: Seq<(i64, i64)>,
    black_pawns: Seq<(i64, i64)>,
) -> PieceSetting {
    PieceSetting {
        indices: game.spatial_indices,
        starts: game.starting_squares@,
        white_king,
        black_king,
        phase,
        center: metrics.cloud_center,
        white_pawns,
        black_pawns,
        white_ready: readiness_cap(white_attack_ready, metrics.white_undeveloped as int),
        black_ready: readiness_cap(black_attack_ready, metrics.black_undeveloped as int),
    }
}

/// White's activity and bishop pair minus Black's.
pub open spec fn pieces_score(
    st: PieceSetting,
    metrics: PieceMetrics,
    pieces: Seq<(i64, i64, Piece)>,
) -> int {
    (sum_of(pieces, st.activity_term(true)) + bishop_pair(
        metrics.white_bishops as int,
        metrics.white_bishop_colors,
        st.phase,
    )) - (sum_of(pieces, st.activity_term(false)) + bishop_pair(
        metrics.black_bishops as int,
        metrics.black_bishop_colors,
        st.phase,
    ))
}

pub open spec fn pieces_rows(
    st: PieceSetting,
    metrics: PieceMetrics,
    pieces: Seq<(i64, i64, Piece)>,
) -> Seq<TraceRow> {
    seq![
        (
            "Piece: Activity"@,
            sum_of(pieces, st.activity_term(true)),
            sum_of(pieces, st.activity_term(false)),
        ),
        (
            "Piece: Bishop Pair"@,
            bishop_pair(metrics.white_bishops as int, metrics.white_bishop_colors, st.phase),
            bishop_pair(metrics.black_bishops as int, metrics.black_bishop_colors, st.phase),
        ),
    ]
}

/// The feature counters after the bishop pairs were counted.
pub open spec fn pieces_features(f: EvalFeatures, metrics: PieceMetrics) -> EvalFeatures {
    let f1 = if metrics.white_bishops >= 2 {
        with_bishop_pair(f, 1i32)
    } else {
        f
    };
    if metrics.black_bishops >= 2 {
        with_bishop_pair(f1, -1i32)
    } else {
        f1
    }
}

/// Evaluates the activity of all pieces but pawns, and the bishop pairs.
pub(crate) fn evaluate_pieces_processed<T: EvaluationTracer>(
    game: &GameState,
    white_king: &Option<Coordinate>,
    black_king: &Option<Coordinate>,
    phase: i32,
    tracer: &mut T,
    piece_list: &[(i64, i64, Piece)],
    metrics: &PieceMetrics,
    white_attack_ready: i32,
    black_attack_ready: i32,
    white_pawns: &[(i64, i64)],
    black_pawns: &[(i64, i64)],
    features: &mut EvalFeatures,
) -> (r: i32)
    requires
        game.spatial_indices.wf(),
        king_in_range(*white_king),
        king_in_range(*black_king),
        is_phase(phase as int),
        pawn_list(white_pawns@),
        pawn_list(black_pawns@),
        pieces_in_range(piece_list@),
        metrics.cloud_center matches Some(c) ==> center_fits(c),
        0 <= metrics.white_undeveloped <= MAX_PIECES,
        0 <= metrics.black_undeveloped <= MAX_PIECES,
        0 <= white_attack_ready <= 100,
        0 <= black_attack_ready <= 100,
    ensures
        ({
            let st = piece_setting(
                *game,
                *white_king,
                *black_king,
                phase as int,
                *metrics,
                white_attack_ready as int,
                black_attack_ready as int,
                white_pawns@,
                black_pawns@,
            );
            &&& r == pieces_score(st, *metrics, piece_list@)
            &&& final(tracer).recorded() == traced(
                old(tracer).recorded(),
                old(tracer).active(),
                pieces_rows(st, *metrics, piece_list@),
            )
        }),
        final(tracer).active() == old(tracer).active(),
        *final(features) == pieces_features(*old(features), *metrics),
        -110_000_000 <= r <= 110_000_000,
{
    let white_ready: i32 = min_i32(
        white_attack_ready,
        clamp_i32(100 - metrics.white_undeveloped * 25, 30, 100),
    );
    let black_ready: i32 = min_i32(
        black_attack_ready,
        clamp_i32(100 - metrics.black_undeveloped * 25, 30, 100),
    );
    let ghost st = piece_setting(
        *game,
        *white_king,
        *black_king,
        phase as int,
        *metrics,
        white_attack_ready as int,
        black_attack_ready as int,
        white_pawns@,
        black_pawns@,
    );
    let mut w_activity: i32 = 0;
    let mut b_activity: i32 = 0;
    let mut i: usize = 0;
    while i < piece_list.len()
        invariant
            i <= piece_list@.len(),
            pieces_in_range(piece_list@),
            st.wf(),
            st.indices == game.spatial_indices,
        st.starts == game.starting_squares@,
            st.white_king == *white_king,
            st.black_king == *black_king,
            st.phase == phase,
            st.center == metrics.cloud_center,
            st.white_ready == white_ready,
            st.black_ready == black_ready,
            st.white_pawns == white_pawns@,
            st.black_pawns == black_pawns@,
            w_activity == sum_of(piece_list@.take(i as int), st.activity_term(true)),
            b_activity == sum_of(piece_list@.take(i as int), st.activity_term(false)),
            -1300 * i <= w_activity <= 300 * i,
            -1300 * i <= b_activity <= 300 * i,
            -1300 * i <= w_activity + b_activity <= 300 * i,
        decreases piece_list@.len() - i,
    {
        let p = piece_list[i];
        assert(piece_list@[i as int] == p);
        let score: i32 = piece_activity(
            game,
            white_king,
            black_king,
            phase,
            &metrics.cloud_center,
            white_ready,
            black_ready,
            white_pawns,
            black_pawns,
            p,
            Ghost(st),
        );
        proof {
            lemma_sum_step(piece_list@, i as int, st.activity_term(true));
            lemma_sum_step(piece_list@, i as int, st.activity_term(false));
        }
        if piece_is_white(p.2) {
            w_activity += score;
        } else {
            b_activity += score;
        }
        i += 1;
    }
    assert(piece_list@.take(i as int) =~= piece_list@);
    let mut w_pair_bonus: i32 = 0;
    let mut b_pair_bonus: i32 = 0;
    if metrics.white_bishops >= 2 {
        w_pair_bonus += taper(MG_BISHOP_PAIR_BONUS, EG_BISHOP_PAIR_BONUS, phase);
        features.bump_bishop_pair(1);
        if metrics.white_bishop_colors.0 && metrics.white_bishop_colors.1 {
            w_pair_bonus += 20;
        }
    }
    if metrics.black_bishops >= 2 {
        b_pair_bonus += taper(MG_BISHOP_PAIR_BONUS, EG_BISHOP_PAIR_BONUS, phase);
        features.bump_bishop_pair(-1);
        if metrics.black_bishop_colors.0 && metrics.black_bishop_colors.1 {
            b_pair_bonus += 20;
        }
    }
    tracer.record("Piece: Activity", w_activity, b_activity);
    tracer.record("Piece: Bishop Pair", w_pair_bonus, b_pair_bonus);
    assert(tracer.recorded() =~= traced(
        old(tracer).recorded(),
        old(tracer).active(),
        pieces_rows(st, *metrics, piece_list@),
    ));
    (w_activity + w_pair_bonus) - (b_activity + b_pair_bonus)
}

/// Support by a pawn raises a knight's score by the outpost bonus of the phase,
/// which is the endgame bonus when nothing else is left.
pub proof fn support_raises_a_knight(
    x: int,
    y: int,
    color: PlayerColor,
    center: Option<Coordinate>,
    phase: int,
    supporting: Seq<(i64, i64)>,
    other: Seq<(i64, i64)>,
    enemy: Seq<(i64, i64)>,
)
    requires
        is_phase(phase),
        pawn_supported(x, y, color, supporting),
        !pawn_supported(x, y, color, other),
    ensures
        color is White ==> knight_score(x, y, color, center, phase, supporting, enemy)
            - knight_score(x, y, color, center, phase, other, enemy) == tapered(
            MG_OUTPOST_BONUS as int,
            EG_OUTPOST_BONUS as int,
            phase,
        ),
        !(color is White) ==> knight_score(x, y, color, center, phase, enemy, supporting)
            - knight_score(x, y, color, center, phase, enemy, other) == tapered(
            MG_OUTPOST_BONUS as int,
            EG_OUTPOST_BONUS as int,
            phase,
        ),
        tapered(MG_OUTPOST_BONUS as int, EG_OUTPOST_BONUS as int, 0) == EG_OUTPOST_BONUS,
{
}

} // verus!
