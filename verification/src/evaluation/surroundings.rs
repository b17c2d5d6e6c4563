//! What pieces make of the squares, kings and other pieces around them.
use crate::arith::{abs, cheb, clamp, lemma_sum_bounds, sum_of, tdiv};
use crate::board::{piece_at, Coordinate, Piece, PieceType, PlayerColor};
use crate::evaluation::base::{
    advancement_percent, counted, counted_black_side, counted_phase, counted_white_side,
    driven_king, game_black_side, game_white_side, global_tropism, king_attack, king_safety_metrics,
    mop_up_roles, setting, shelter, urgency, white_mops_up, EndgameTerms,
};
use crate::evaluation::features::EvalFeatures;
use crate::evaluation::king_safety::{
    attack_readiness, blocker_reduction, border_distance, danger_penalty, king_features, open_rays,
    ray_attack_bonus, ray_danger, ray_direction, ray_stop, KingRay, RayStop,
};
use crate::evaluation::lines::clear_line_in;
use crate::evaluation::metrics::{
    active_among, active_pieces, attack_tropism_term, bishop_term, cloud_center, cloud_pull_x,
    cloud_pull_y, cloud_reference, cloud_weight, defense_tropism_term, diag_term, enemy_color,
    has_bishop_on, has_queen, in_active_tile, king_rays, minor_threat_at, minor_threat_term,
    ortho_term, pawn_bonus_term, pawn_penalty_term, phase_term, points_term, ray_of, ring_covered,
    same_tile, soldier_term, supporters, undeveloped_term, zone_term,
};
use crate::evaluation::pawns::{has_pawn, live_pawn, live_pawns, sorted_pawns};
use crate::evaluation::pieces::{
    bishop_score, far_penalty, lane_distance, pawn_supported, pieces_features, queen_line_bonus,
    queen_score, readiness_cap, rook_king_bonus, zone_distance, PieceMetrics, PieceSetting,
};
use crate::evaluation::tendencies::{leapers_like_the_center, weights_taper};
use crate::evaluation::values::{centrality_weight, is_phase, piece_value, tapered};
use crate::game::GameState;
use crate::moves::SpatialIndices;
use vstd::prelude::*;

verus! {

/// What a piece of value `own` gains by a leap at what stands on a square.
#[verifier::opaque]
pub open spec fn leap_worth(target: Option<Piece>, white: bool, own: int) -> int {
    match target {
        Some(t) => if white && !(t.color is Black) || !white && !(t.color is White) {
            0
        } else if piece_value(t.piece_type) >= 600 && own < 600 {
            35
        } else if piece_value(t.piece_type) >= 400 && own < 400 {
            20
        } else {
            0
        },
        None => 0,
    }
}

/// A knight gains by the more valuable enemy pieces that it attacks, on the eight squares
/// of its leaps; a piece that does not leap like one gains nothing by that.
pub proof fn knights_gain_by_attacks(
    board: Seq<(i64, i64, Piece)>,
    p: (i64, i64, Piece),
    white: bool,
)
    requires
        (p.2.color is White) == white,
    ensures
        p.2.piece_type is Knight || p.2.piece_type is Centaur || p.2.piece_type is RoyalCentaur
            ==> minor_threat_term(board, white)(p) == ({
            let v = piece_value(p.2.piece_type);
            leap_worth(piece_at(board, p.0 + 1, p.1 + 2), white, v) + leap_worth(
                piece_at(board, p.0 + 1, p.1 - 2),
                white,
                v,
            ) + leap_worth(piece_at(board, p.0 - 1, p.1 + 2), white, v) + leap_worth(
                piece_at(board, p.0 - 1, p.1 - 2),
                white,
                v,
            ) + leap_worth(piece_at(board, p.0 + 2, p.1 + 1), white, v) + leap_worth(
                piece_at(board, p.0 + 2, p.1 - 1),
                white,
                v,
            ) + leap_worth(piece_at(board, p.0 - 2, p.1 + 1), white, v) + leap_worth(
                piece_at(board, p.0 - 2, p.1 - 1),
                white,
                v,
            )
        }),
        p.2.piece_type is Pawn || p.2.piece_type is Bishop || p.2.piece_type is Rook
            || p.2.piece_type is Queen || p.2.piece_type is King ==> minor_threat_term(
            board,
            white,
        )(p) == 0,
        minor_threat_term(board, !white)(p) == 0,
{
    let v = piece_value(p.2.piece_type);
    lemma_leap(board, p.0 + 1, p.1 + 2, white, v);
    lemma_leap(board, p.0 + 1, p.1 - 2, white, v);
    lemma_leap(board, p.0 - 1, p.1 + 2, white, v);
    lemma_leap(board, p.0 - 1, p.1 - 2, white, v);
    lemma_leap(board, p.0 + 2, p.1 + 1, white, v);
    lemma_leap(board, p.0 + 2, p.1 - 1, white, v);
    lemma_leap(board, p.0 - 2, p.1 + 1, white, v);
    lemma_leap(board, p.0 - 2, p.1 - 1, white, v);
}

proof fn lemma_leap(board: Seq<(i64, i64, Piece)>, x: int, y: int, white: bool, own: int)
    ensures
        minor_threat_at(board, x, y, enemy_color(white), own) == leap_worth(
            piece_at(board, x, y),
            white,
            own,
        ),
{
    reveal(leap_worth);
}

/// Kings draw the cloud the most, then queens, rooks and lesser pieces; pawns do not.
pub proof fn kings_draw_the_cloud()
    ensures
        centrality_weight(PieceType::King) == 2000,
        centrality_weight(PieceType::Queen) == 1000,
        centrality_weight(PieceType::Rook) == 500,
        centrality_weight(PieceType::Bishop) == 300,
        centrality_weight(PieceType::Knight) == 300,
        centrality_weight(PieceType::Knightrider) == 400,
        centrality_weight(PieceType::Hawk) == 350,
        centrality_weight(PieceType::Guard) == 250,
        centrality_weight(PieceType::Pawn) == 0,
{
}

/// The centre of a lone piece is its own square, where it is within sixteen squares of
/// the point that the kings give.
pub proof fn lone_pieces_are_their_own_center(p: (i64, i64, Piece), king: Coordinate)
    requires
        p.2.piece_type is King || p.2.piece_type is Queen || p.2.piece_type is Rook
            || p.2.piece_type is Knight,
        -16 <= p.0 - king.x <= 16,
        -16 <= p.1 - king.y <= 16,
    ensures
        cloud_center(seq![p], Some(king), None) == Some(Coordinate { x: p.0, y: p.1 }),
        cloud_center(seq![p], None, Some(king)) == Some(Coordinate { x: p.0, y: p.1 }),
        cloud_center(Seq::<(i64, i64, Piece)>::empty(), Some(king), None) is None,
{
    let s = seq![p];
    assert(s.drop_last() =~= Seq::<(i64, i64, Piece)>::empty());
    reveal_with_fuel(sum_of, 2);
    let w = centrality_weight(p.2.piece_type);
    let dx = p.0 - king.x;
    let dy = p.1 - king.y;
    assert(sum_of(s, cloud_weight()) == w);
    assert(sum_of(s, cloud_pull_x(king.x as int)) == w * dx);
    assert(sum_of(s, cloud_pull_y(king.y as int)) == w * dy);
    lemma_exact(w, dx);
    lemma_exact(w, dy);
}

proof fn lemma_exact(w: int, d: int)
    requires
        w > 0,
    ensures
        tdiv(w * d, w) == d,
{
    if d >= 0 {
        assert(w * d >= 0 && (w * d) / w == d) by (nonlinear_arith)
            requires
                w > 0,
                d >= 0,
        ;
    } else {
        let e = -d;
        assert(w * d < 0 && -(w * d) == w * e && (w * e) / w == e) by (nonlinear_arith)
            requires
                w > 0,
                e > 0,
                d == -e,
        ;
    }
}

/// A rook's lines pass a point by the lesser of the two offsets, a bishop's by the lesser
/// difference along its diagonals, and a queen's by the least of all four.
pub proof fn lines_pass_by_the_least_offset(x: int, y: int, c: Coordinate)
    ensures
        ({
            let dx = x - c.x;
            let dy = y - c.y;
            let rook = lane_distance(PieceType::Rook, x, y, c);
            let bishop = lane_distance(PieceType::Bishop, x, y, c);
            let queen = lane_distance(PieceType::Queen, x, y, c);
            &&& rook <= abs(dx) && rook <= abs(dy) && (rook == abs(dx) || rook == abs(dy))
            &&& bishop <= abs(dx - dy) && bishop <= abs(dx + dy) && (bishop == abs(dx - dy)
                || bishop == abs(dx + dy))
            &&& queen <= rook && queen <= bishop && (queen == rook || queen == bishop)
            &&& lane_distance(PieceType::Chancellor, x, y, c) == rook
            &&& lane_distance(PieceType::Archbishop, x, y, c) == bishop
            &&& lane_distance(PieceType::Amazon, x, y, c) == queen
        }),
{
}

/// Each knight or bishop at home takes 25 percent off how ready an attack can be, down to
/// 30 percent.
pub proof fn undeveloped_pieces_hold_attacks_back(ready: int, undeveloped: int)
    requires
        0 <= ready <= 100,
        undeveloped >= 0,
    ensures
        undeveloped == 0 ==> readiness_cap(ready, undeveloped) == ready,
        undeveloped == 1 ==> readiness_cap(100, undeveloped) == 75,
        undeveloped == 2 ==> readiness_cap(100, undeveloped) == 50,
        undeveloped >= 3 ==> readiness_cap(100, undeveloped) == 30,
        readiness_cap(ready, undeveloped) <= ready,
        readiness_cap(ready, undeveloped + 1) <= readiness_cap(ready, undeveloped),
{
}

/// An attack is ready with two sliders near the king and three open rays to it; with one
/// it is nearly so on five open rays; with few open rays, or without sliders, it is not.
pub proof fn attacks_need_rays_and_sliders(rays: Seq<KingRay>, sliders: int, open: int)
    requires
        rays.len() == 8,
        sliders >= 0,
        open == (if rays[0].0 > 6 {
            1int
        } else {
            0
        }) + (if rays[1].0 > 6 {
            1int
        } else {
            0
        }) + (if rays[2].0 > 6 {
            1int
        } else {
            0
        }) + (if rays[3].0 > 6 {
            1int
        } else {
            0
        }) + (if rays[4].0 > 6 {
            1int
        } else {
            0
        }) + (if rays[5].0 > 6 {
            1int
        } else {
            0
        }) + (if rays[6].0 > 6 {
            1int
        } else {
            0
        }) + (if rays[7].0 > 6 {
            1int
        } else {
            0
        }),
    ensures
        attack_readiness(rays, false, sliders) == 50,
        open <= 2 ==> attack_readiness(rays, true, sliders) == 40,
        open >= 3 && sliders >= 2 ==> attack_readiness(rays, true, sliders) == 100,
        open >= 5 && sliders == 1 ==> attack_readiness(rays, true, sliders) == 85,
        3 <= open <= 4 && sliders == 1 ==> attack_readiness(rays, true, sliders) == 55,
        open >= 3 && sliders == 0 ==> attack_readiness(rays, true, sliders) == 30,
{
}

/// The defense is the more urgent, the more the enemy threatens: ten without threats, and
/// five for every four points up to a hundred.
pub proof fn threats_make_defense_urgent(points: int)
    requires
        points >= 0,
    ensures
        urgency(0) == 10,
        urgency(4) == 15,
        urgency(40) == 60,
        points >= 72 ==> urgency(points) == 100,
        urgency(points) <= urgency(points + 1) <= 100,
{
}

/// A queen threatens a king the most, then a rook, a bishop and a knightrider; pawns and
/// royal pieces do not, and each piece only the king of the other side.
pub proof fn queens_threaten_the_most(p: (i64, i64, Piece), white: bool)
    requires
        (p.2.color is White) == white,
    ensures
        points_term(white)(p) == (match p.2.piece_type {
            PieceType::Queen | PieceType::Amazon => 40int,
            PieceType::Rook | PieceType::Chancellor => 15,
            PieceType::Bishop | PieceType::Archbishop => 10,
            PieceType::Knightrider => 8,
            PieceType::Pawn
            | PieceType::King
            | PieceType::RoyalQueen
            | PieceType::RoyalCentaur => 0,
            _ => 3,
        }),
        points_term(!white)(p) == 0,
        diag_term(white)(p) == (match p.2.piece_type {
            PieceType::Bishop
            | PieceType::Archbishop
            | PieceType::Queen
            | PieceType::Amazon
            | PieceType::RoyalQueen => 1int,
            _ => 0,
        }),
        diag_term(!white)(p) == 0,
        ortho_term(white)(p) == (match p.2.piece_type {
            PieceType::Rook
            | PieceType::Chancellor
            | PieceType::Queen
            | PieceType::Amazon
            | PieceType::RoyalQueen => 1int,
            _ => 0,
        }),
        ortho_term(!white)(p) == 0,
{
}

/// A slider counts for an attack within ten files and ranks of the enemy king.
pub proof fn attackers_are_near_the_king(p: (i64, i64, Piece), king: Coordinate, white: bool)
    requires
        (p.2.color is White) == white,
    ensures
        zone_term(white, Some(king))(p) == (if abs(p.0 - king.x) <= 10 && abs(p.1 - king.y) <= 10 {
            match p.2.piece_type {
                PieceType::Bishop
                | PieceType::Archbishop
                | PieceType::Rook
                | PieceType::Chancellor
                | PieceType::Queen
                | PieceType::Amazon
                | PieceType::RoyalQueen
                | PieceType::Knightrider => 1int,
                _ => 0,
            }
        } else {
            0
        }),
        zone_term(!white, Some(king))(p) == 0,
        zone_term(white, None)(p) == 0,
{
}

/// The side with pieces drives the king of the side without.
pub proof fn the_bare_king_is_driven(game: GameState)
    ensures
        game.white_non_pawn_material && !game.black_non_pawn_material ==> driven_king(game)
            == game.black_king_pos && mop_up_roles(game) == Some(
            (PlayerColor::White, PlayerColor::Black),
        ),
        game.black_non_pawn_material && !game.white_non_pawn_material ==> driven_king(game)
            == game.white_king_pos && mop_up_roles(game) == Some(
            (PlayerColor::Black, PlayerColor::White),
        ),
        game.black_non_pawn_material == game.white_non_pawn_material ==> driven_king(game) is None
            && mop_up_roles(game) is None,
{
}

/// A side mops up only with two pieces or more against two or fewer.
pub proof fn mopping_up_needs_the_upper_hand(game: GameState, terms: EndgameTerms)
    requires
        game.black_piece_count >= game.black_pawn_count,
        game.white_piece_count >= game.white_pawn_count,
    ensures
        white_mops_up(game, terms) ==> game.black_piece_count - game.black_pawn_count <= 2
            && game.white_piece_count - game.white_pawn_count >= 2 && game.black_king_pos is Some,
{
}

/// A compound piece has its part of what its parts have: a chancellor nine tenths of a
/// rook's activity, an archbishop nine tenths of a bishop's, a centaur half of a leaper's.
pub proof fn compounds_have_their_share(st: PieceSetting, x: i64, y: i64, color: PlayerColor)
    ensures
        ({
            let rook = st.base_activity((x, y, Piece { piece_type: PieceType::Rook, color }));
            let bishop = st.base_activity((x, y, Piece { piece_type: PieceType::Bishop, color }));
            let queen = st.base_activity((x, y, Piece { piece_type: PieceType::Queen, color }));
            &&& st.base_activity((x, y, Piece { piece_type: PieceType::Chancellor, color }))
                == tdiv(rook * 90, 100)
            &&& st.base_activity((x, y, Piece { piece_type: PieceType::Archbishop, color }))
                == tdiv(bishop * 90, 100)
            &&& st.base_activity((x, y, Piece { piece_type: PieceType::Amazon, color })) == tdiv(
                queen * 70,
                100,
            ) + tdiv(rook * 50, 100)
            &&& st.base_activity((x, y, Piece { piece_type: PieceType::RoyalQueen, color }))
                == queen
            &&& st.base_activity((x, y, Piece { piece_type: PieceType::Pawn, color })) == 0
            &&& st.base_activity((x, y, Piece { piece_type: PieceType::King, color })) == 0
        }),
{
}

/// The activity of a slider counts as far as its side's attack is ready; what speaks
/// against a piece always counts in full.
pub proof fn activity_waits_for_the_attack(st: PieceSetting, p: (i64, i64, Piece))
    requires
        0 <= st.white_ready <= 100,
        0 <= st.black_ready <= 100,
    ensures
        ({
            let raw = st.raw_activity(p);
            let ready = if p.2.color is White {
                st.white_ready
            } else {
                st.black_ready
            };
            let slider = p.2.piece_type is Rook || p.2.piece_type is Bishop
                || p.2.piece_type is Queen;
            &&& raw <= 0 ==> st.activity(p) == raw
            &&& p.2.piece_type is Knight ==> st.activity(p) == raw
            &&& slider && raw > 0 ==> 100 * st.activity(p) <= raw * ready < 100 * st.activity(p)
                + 100
            &&& slider && raw > 0 && ready == 100 ==> st.activity(p) == raw
        }),
        st.activity_term(p.2.color is White)(p) == st.activity(p),
        st.activity_term(!(p.2.color is White))(p) == 0,
{
    let raw = st.raw_activity(p);
    let ready = if p.2.color is White {
        st.white_ready
    } else {
        st.black_ready
    };
    if raw > 0 {
        assert(raw * ready >= 0 && (ready == 100 ==> raw * ready == 100 * raw))
            by (nonlinear_arith)
            requires
                raw > 0,
                ready >= 0,
        ;
    }
}

/// A queen with a clear line to the enemy king is best four squares from it, and gains ten
/// more behind it.
pub proof fn queens_like_a_line_to_the_king(
    x: int,
    y: int,
    color: PlayerColor,
    king: Coordinate,
    phase: int,
    d: int,
)
    requires
        is_phase(phase),
        0 <= d <= 1_000_000,
        abs(x - king.x) <= d && abs(y - king.y) <= d,
        abs(x - king.x) == d || abs(y - king.y) == d,
    ensures
        ({
            let behind = if color is White && y > king.y || color is Black && y < king.y {
                10int
            } else {
                0
            };
            let near = if d <= 4 {
                12 + 2 * d
            } else if d <= 14 {
                28 - 2 * d
            } else {
                0
            };
            15 + behind + 2 * near <= queen_line_bonus(x, y, color, king, phase) <= 15 + behind + 3
                * near
        }),
{
    weights_taper(4, 6, phase);
    assert((d as i32) as int == d);
    let near = if d <= 4 {
        12 + 2 * d
    } else if d <= 14 {
        28 - 2 * d
    } else {
        0
    };
    let t = tapered(4, 6, phase);
    let m = if tdiv(t, 2) >= 1 {
        tdiv(t, 2)
    } else {
        1
    };
    assert(2 <= m <= 3);
    assert(2 * near <= near * m <= 3 * near) by (nonlinear_arith)
        requires
            2 <= m <= 3,
            near >= 0,
    ;
}

/// A slider more than eighteen squares from both kings loses by every square beyond, up to
/// forty; the nearer king counts.
pub proof fn far_sliders_lose_by_distance(dist: int, weight: int)
    requires
        dist >= 0,
        weight >= 0,
    ensures
        dist <= 18 ==> far_penalty(dist, weight) == 0,
        18 <= dist < 58 ==> far_penalty(dist + 1, weight) == far_penalty(dist, weight) + weight,
        dist >= 58 ==> far_penalty(dist, weight) == 40 * weight,
{
    let e = dist - 18;
    assert((e + 1) * weight == e * weight + weight && 0 * weight == 0 && 1 * weight == weight)
        by (nonlinear_arith);
}

/// The nearer of the two kings is the one that counts.
pub proof fn the_nearer_king_counts(x: int, y: int, enemy: Coordinate, own: Coordinate)
    ensures
        ({
            let d = zone_distance(x, y, enemy, Some(own));
            &&& abs(x - enemy.x) >= d || abs(y - enemy.y) >= d
            &&& abs(x - own.x) >= d || abs(y - own.y) >= d
            &&& (abs(x - enemy.x) <= d && abs(y - enemy.y) <= d) || (abs(x - own.x) <= d && abs(
                y - own.y,
            ) <= d)
        }),
{
}

/// The eight rays from a king go out in the eight directions, and each square of a
/// direction lies on its ray.
pub proof fn rays_go_in_their_directions(i: int, k: int)
    requires
        0 <= i < 8,
        k > 0,
    ensures
        ray_of(k * ray_direction(i).0, k * ray_direction(i).1) == Some(i),
        i < 4 ==> abs(ray_direction(i).0) == 1 && abs(ray_direction(i).1) == 1,
        i >= 4 ==> abs(ray_direction(i).0) + abs(ray_direction(i).1) == 1,
        ray_of(0, 0) is None,
        ray_of(k, 2 * k) is None,
{
    assert(k * 1 == k && k * -1 == -k && k * 0 == 0) by (nonlinear_arith);
}

/// Along a direction a king leaves the board after the squares that are left in it.
pub proof fn the_border_is_where_the_board_ends(
    bounds: (i64, i64, i64, i64),
    king: Coordinate,
    n: int,
)
    requires
        0 <= n < 100,
    ensures
        bounds.1 == king.x + n ==> border_distance(bounds, king, 1, 0) == n + 1,
        bounds.0 == king.x - n ==> border_distance(bounds, king, -1, 0) == n + 1,
        bounds.3 == king.y + n ==> border_distance(bounds, king, 0, 1) == n + 1,
        bounds.2 == king.y - n ==> border_distance(bounds, king, 0, -1) == n + 1,
        bounds.1 == king.x + n && bounds.3 >= king.y + n ==> border_distance(bounds, king, 1, 1)
            == n + 1,
        bounds.0 == king.x - n && bounds.2 <= king.y - n ==> border_distance(bounds, king, -1, -1)
            == n + 1,
{
}

/// A ray is open beyond eight squares; nearer, an own piece or the border shields the king
/// and an enemy piece hardly does.
pub proof fn rays_end_at_what_stands_there(ray: KingRay, border: int, color: PlayerColor)
    requires
        color is White || color is Black,
    ensures
        ray.0 > 8 && border > 8 ==> ray_stop(ray, border, color) is Open,
        border < ray.0 && border <= 8 ==> ray_stop(ray, border, color) == RayStop::Blocked(0, 1),
        ray.0 <= border && ray.0 <= 8 && ray.2 == color ==> ray_stop(ray, border, color)
            == RayStop::Blocked(ray.1, ray.0),
        ray.0 <= border && ray.0 <= 8 && ray.2 != color && !(ray.2 is Neutral) ==> ray_stop(
            ray,
            border,
            color,
        ) is Enemy,
{
}

/// An open ray is worth 30 of danger along a diagonal and 35 along a rank or file; with an
/// enemy piece on it 18 and 21; with an own pawn next to the king 6 and 7.
pub proof fn open_rays_are_dangerous(
    ray: KingRay,
    i: int,
    bounds: (i64, i64, i64, i64),
    king: Coordinate,
    color: PlayerColor,
)
    requires
        0 <= i < 8,
        color is White || color is Black,
        bounds.0 <= king.x - 50,
        bounds.1 >= king.x + 50,
        bounds.2 <= king.y - 50,
        bounds.3 >= king.y + 50,
        -1_000_000_000 <= king.x <= 1_000_000_000,
        -1_000_000_000 <= king.y <= 1_000_000_000,
    ensures
        ray.0 > 8 ==> ray_danger(ray, i, bounds, king, color) == (if i < 4 {
            30int
        } else {
            35
        }),
        1 <= ray.0 <= 8 && ray.2 != color && !(ray.2 is Neutral) ==> ray_danger(
            ray,
            i,
            bounds,
            king,
            color,
        ) == (if i < 4 {
            18int
        } else {
            21
        }),
        ray.0 == 1 && ray.1 == 100 && ray.2 == color ==> ray_danger(ray, i, bounds, king, color)
            == (if i < 4 {
            6int
        } else {
            7
        }),
{
    let a = clamp(90 - tdiv(100, 10), 0, 80);
    let b = clamp(125 - 1 * 25, 30, 100);
    assert(a == 80 && b == 100);
    assert(a * b == 8000) by (nonlinear_arith)
        requires
            a == 80,
            b == 100,
    ;
    assert(blocker_reduction(100, 1) == 80);
}

/// A king's ring is covered by an own pawn, guard or void next to it, and by nothing else.
pub proof fn rings_are_covered_from_next_to_the_king(
    s: Seq<(i64, i64, Piece)>,
    p: (i64, i64, Piece),
    king: Coordinate,
    white: bool,
)
    ensures
        ring_covered(s.push(p), Some(king), white) <==> ring_covered(s, Some(king), white) || ((
        p.2.color is White) == white && (p.2.piece_type is Pawn || p.2.piece_type is Guard
            || p.2.piece_type is Void) && abs(p.0 - king.x) <= 1 && abs(p.1 - king.y) <= 1 && (p.0
            != king.x || p.1 != king.y)),
        !ring_covered(Seq::<(i64, i64, Piece)>::empty(), Some(king), white),
        !ring_covered(s, None, white),
{
    let t = s.push(p);
    assert(t[s.len() as int] == p);
    if ring_covered(s, Some(king), white) {
        let i = choose|i: int|
            0 <= i < s.len() && ((#[trigger] s[i]).2.color is White) == white && (
            s[i].2.piece_type is Pawn || s[i].2.piece_type is Guard || s[i].2.piece_type is Void)
                && cheb(
                s[i].0 as int,
                s[i].1 as int,
                king.x as int,
                king.y as int,
            ) == 1;
        assert(t[i] == s[i]);
    }
    if ring_covered(t, Some(king), white) {
        let i = choose|i: int|
            0 <= i < t.len() && ((#[trigger] t[i]).2.color is White) == white && (
            t[i].2.piece_type is Pawn || t[i].2.piece_type is Guard || t[i].2.piece_type is Void)
                && cheb(
                t[i].0 as int,
                t[i].1 as int,
                king.x as int,
                king.y as int,
            ) == 1;
        if i < s.len() {
            assert(t[i] == s[i]);
        }
    }
}

/// A side has a queen once it has a queen or an amazon.
pub proof fn queens_and_amazons_are_queens(
    s: Seq<(i64, i64, Piece)>,
    p: (i64, i64, Piece),
    white: bool,
)
    ensures
        has_queen(s.push(p), white) <==> has_queen(s, white) || ((p.2.color is White) == white && (
        p.2.piece_type is Queen || p.2.piece_type is Amazon)),
        !has_queen(Seq::<(i64, i64, Piece)>::empty(), white),
{
    let t = s.push(p);
    assert(t[s.len() as int] == p);
    if has_queen(s, white) {
        let i = choose|i: int|
            0 <= i < s.len() && is_queen_of(#[trigger] s[i], white);
        assert(t[i] == s[i]);
    }
    if has_queen(t, white) {
        let i = choose|i: int|
            0 <= i < t.len() && is_queen_of(#[trigger] t[i], white);
        if i < s.len() {
            assert(t[i] == s[i]);
        }
    }
}

spec fn is_queen_of(p: (i64, i64, Piece), white: bool) -> bool {
    (p.2.color is White) == white && (p.2.piece_type is Queen || p.2.piece_type is Amazon)
}

/// Bishops are counted for their side, and told apart by the color of their squares.
pub proof fn bishops_are_told_apart(
    s: Seq<(i64, i64, Piece)>,
    p: (i64, i64, Piece),
    white: bool,
    even: bool,
)
    ensures
        sum_of(s.push(p), bishop_term(white)) == sum_of(s, bishop_term(white)) + (if (
        p.2.color is White) == white && p.2.piece_type is Bishop {
            1int
        } else {
            0
        }),
        has_bishop_on(s.push(p), white, even) <==> has_bishop_on(s, white, even) || ((
        p.2.color is White) == white && p.2.piece_type is Bishop && ((p.0 + p.1) % 2 == 0)
            == even),
{
    let t = s.push(p);
    assert(t.drop_last() =~= s);
    assert(t[s.len() as int] == p);
    if has_bishop_on(s, white, even) {
        let i = choose|i: int|
            0 <= i < s.len() && ((#[trigger] s[i]).2.color is White) == white
                && s[i].2.piece_type is Bishop && (((s[i].0 + s[i].1) % 2 == 0) == even);
        assert(t[i] == s[i]);
    }
    if has_bishop_on(t, white, even) {
        let i = choose|i: int|
            0 <= i < t.len() && ((#[trigger] t[i]).2.color is White) == white
                && t[i].2.piece_type is Bishop && (((t[i].0 + t[i].1) % 2 == 0) == even);
        if i < s.len() {
            assert(t[i] == s[i]);
        }
    }
}

/// Every piece of White or Black is counted, and nothing that is not on the board; other
/// pieces are where White or Black stands in the same eight by eight squares.
pub proof fn players_pieces_are_counted(s: Seq<(i64, i64, Piece)>, i: int)
    requires
        0 <= i < s.len(),
    ensures
        s[i].2.color is White || s[i].2.color is Black ==> active_pieces(s).contains(s[i]),
        forall|k: int|
            0 <= k < active_pieces(s).len() ==> s.contains(#[trigger] active_pieces(s)[k]),
{
    assert(s[i].2.color is White || s[i].2.color is Black ==> in_active_tile(s, s[i])) by {
        assert(same_tile(s[i], s[i]));
    }
    lemma_active(s, s.len(), i);
}

proof fn lemma_active(s: Seq<(i64, i64, Piece)>, n: nat, i: int)
    requires
        n <= s.len(),
        0 <= i < s.len(),
    ensures
        i < n && in_active_tile(s, s[i]) ==> active_among(s, n).contains(s[i]),
        forall|k: int|
            0 <= k < active_among(s, n).len() ==> s.contains(#[trigger] active_among(s, n)[k]),
    decreases n,
{
    if n > 0 {
        lemma_active(s, (n - 1) as nat, i);
        let t = active_among(s, (n - 1) as nat);
        let u = active_among(s, n);
        if in_active_tile(s, s[n - 1]) {
            assert(u[t.len() as int] == s[n - 1]);
            if i < n - 1 && in_active_tile(s, s[i]) {
                let k = choose|k: int| 0 <= k < t.len() && t[k] == s[i];
                assert(u[k] == s[i]);
            }
            assert forall|k: int| 0 <= k < u.len() implies s.contains(#[trigger] u[k]) by {
                if k < t.len() {
                    assert(u[k] == t[k]);
                } else {
                    assert(s.contains(s[n - 1]));
                }
            }
        }
    }
}

proof fn lemma_sum_covers<A>(s: Seq<A>, f: spec_fn(A) -> int, k: int)
    requires
        forall|i: int| 0 <= i < s.len() ==> #[trigger] f(s[i]) >= 0,
        0 <= k < s.len(),
    ensures
        sum_of(s, f) >= f(s[k]),
        sum_of(s, f) >= 0,
    decreases s.len(),
{
    let t = s.drop_last();
    assert forall|i: int| 0 <= i < t.len() implies #[trigger] f(t[i]) >= 0 by {
        assert(t[i] == s[i]);
    }
    assert(f(s[s.len() - 1]) >= 0);
    if t.len() > 0 {
        lemma_sum_covers(t, f, if k < t.len() {
            k
        } else {
            0
        });
    }
    if k < t.len() {
        assert(t[k] == s[k]);
    }
}

/// A side has no pieces but pawns and royal ones.
pub open spec fn is_bare(s: Seq<(i64, i64, Piece)>, white: bool) -> bool {
    forall|i: int|
        0 <= i < s.len() && ((#[trigger] s[i]).2.color is White) == white ==> (
        s[i].2.piece_type is Pawn || s[i].2.piece_type is King)
}

/// What a king has to fear comes from the other side: nothing from a bare one, and a
/// queen makes the defense urgent.
pub proof fn kings_fear_the_other_side(game: GameState, i: int)
    requires
        0 <= i < counted(game).len() <= 100_000,
    ensures
        ({
            let m = king_safety_metrics(game);
            let p = counted(game)[i].2;
            &&& is_bare(counted(game), false) ==> m.urgency.0 == 10 && !m.has_enemy_queen.0
                && m.black_slider_counts == (0i32, 0i32)
            &&& is_bare(counted(game), true) ==> m.urgency.1 == 10 && !m.has_enemy_queen.1
                && m.white_slider_counts == (0i32, 0i32)
            &&& p.piece_type is Queen && p.color is Black ==> m.urgency.0 >= 60
                && m.has_enemy_queen.0 && m.black_slider_counts.0 >= 1 && m.black_slider_counts.1
                >= 1
            &&& p.piece_type is Queen && p.color is White ==> m.urgency.1 >= 60
                && m.has_enemy_queen.1 && m.white_slider_counts.0 >= 1 && m.white_slider_counts.1
                >= 1
            &&& p.piece_type is Rook && p.color is White ==> m.white_slider_counts.1 >= 1
            &&& p.piece_type is Bishop && p.color is White ==> m.white_slider_counts.0 >= 1
        }),
{
    let s = counted(game);
    lemma_sum_covers(s, points_term(true), i);
    lemma_sum_covers(s, points_term(false), i);
    lemma_sum_covers(s, diag_term(true), i);
    lemma_sum_covers(s, diag_term(false), i);
    lemma_sum_covers(s, ortho_term(true), i);
    lemma_sum_covers(s, ortho_term(false), i);
    lemma_sum_bounds(s, points_term(true), 0, 40);
    lemma_sum_bounds(s, points_term(false), 0, 40);
    lemma_sum_bounds(s, diag_term(true), 0, 1);
    lemma_sum_bounds(s, diag_term(false), 0, 1);
    lemma_sum_bounds(s, ortho_term(true), 0, 1);
    lemma_sum_bounds(s, ortho_term(false), 0, 1);
    assert(s.len() * 0 == 0);
    if is_bare(s, true) {
        lemma_sum_bounds(s, points_term(true), 0, 0);
        lemma_sum_bounds(s, diag_term(true), 0, 0);
        lemma_sum_bounds(s, ortho_term(true), 0, 0);
    }
    if is_bare(s, false) {
        lemma_sum_bounds(s, points_term(false), 0, 0);
        lemma_sum_bounds(s, diag_term(false), 0, 0);
        lemma_sum_bounds(s, ortho_term(false), 0, 0);
    }
}

/// A bare side neither attacks the enemy king along rays nor draws near a king.
pub proof fn bare_sides_do_not_attack(game: GameState, white: bool)
    requires
        is_bare(counted(game), white),
    ensures
        king_attack(game, white) == 0,
        global_tropism(game, white) == 0,
{
    let s = counted(game);
    assert(s.len() * 0 == 0);
    lemma_sum_bounds(s, diag_term(white), 0, 0);
    lemma_sum_bounds(s, ortho_term(white), 0, 0);
    lemma_sum_bounds(s, attack_tropism_term(white, game.black_king_pos), 0, 0);
    lemma_sum_bounds(s, defense_tropism_term(white, game.white_king_pos), 0, 0);
    lemma_sum_bounds(s, attack_tropism_term(white, game.white_king_pos), 0, 0);
    lemma_sum_bounds(s, defense_tropism_term(white, game.black_king_pos), 0, 0);
    let phase = if game.total_phase <= 24 {
        game.total_phase as int
    } else {
        24
    };
    let a = tapered(180, 360, phase);
    let b = tapered(120, 60, phase);
    assert(0 * a == 0 && 0 * b == 0) by (nonlinear_arith);
}

/// Each side's pawns are judged by its own king and promotion rank, against the other's
/// pawns.
pub proof fn pawns_are_judged_by_their_own_side(game: GameState)
    ensures
        ({
            let w = counted_white_side(game);
            let b = counted_black_side(game);
            &&& w.white && !b.white
            &&& w.own == b.enemy && w.enemy == b.own
            &&& w.own_king == game.white_king_pos && w.enemy_king == game.black_king_pos
            &&& b.own_king == game.black_king_pos && b.enemy_king == game.white_king_pos
            &&& w.promo == game.white_promo_rank && b.promo == game.black_promo_rank
            &&& w.phase == b.phase
            &&& w.pieces == game.board@ && b.pieces == game.board@
        }),
        ({
            let w = game_white_side(game);
            let b = game_black_side(game);
            &&& w.white && !b.white
            &&& w.own == b.enemy && w.enemy == b.own
            &&& w.own_king == game.white_king_pos && w.enemy_king == game.black_king_pos
            &&& b.own_king == game.black_king_pos && b.enemy_king == game.white_king_pos
            &&& w.promo == game.white_promo_rank && b.promo == game.black_promo_rank
            &&& w.own == sorted_pawns(game.board@, true, game.white_promo_rank as int)
        }),
{
}

/// A pawn that can still promote is listed for its own side, and no other piece is.
pub proof fn pawn_lists_hold_pawns(
    s: Seq<(i64, i64, Piece)>,
    white: bool,
    promo: int,
    x: i64,
    y: i64,
)
    ensures
        has_pawn(live_pawns(s, white, promo), x as int, y as int) <==> exists|i: int|
            {
                &&& 0 <= i < s.len()
                &&& (#[trigger] s[i]).0 == x && s[i].1 == y
                &&& s[i].2.piece_type is Pawn
                &&& (s[i].2.color is White) == white
                &&& if white {
                    y < promo
                } else {
                    y > promo
                }
            },
    decreases s.len(),
{
    if s.len() > 0 {
        let t = s.drop_last();
        pawn_lists_hold_pawns(t, white, promo, x, y);
        let a = live_pawns(t, white, promo);
        let b = live_pawns(s, white, promo);
        let last = s.last();
        if live_pawn(last, white, promo) {
            assert(b[a.len() as int] == (last.0, last.1));
        }
        if has_pawn(a, x as int, y as int) {
            let k = choose|k: int| 0 <= k < a.len() && (#[trigger] a[k]).0 == x && a[k].1 == y;
            assert(b[k] == a[k]);
            let i = choose|i: int|
                {
                    &&& 0 <= i < t.len()
                    &&& (#[trigger] t[i]).0 == x && t[i].1 == y
                    &&& t[i].2.piece_type is Pawn
                    &&& (t[i].2.color is White) == white
                };
            assert(s[i] == t[i]);
        } else if has_pawn(b, x as int, y as int) {
            let k = choose|k: int| 0 <= k < b.len() && (#[trigger] b[k]).0 == x && b[k].1 == y;
            if k < a.len() {
                assert(b[k] == a[k]);
            }
            assert(s[s.len() - 1] == last);
        } else if exists|i: int|
            {
                &&& 0 <= i < s.len()
                &&& (#[trigger] s[i]).0 == x && s[i].1 == y
                &&& s[i].2.piece_type is Pawn
                &&& (s[i].2.color is White) == white
                &&& if white {
                    y < promo
                } else {
                    y > promo
                }
            } {
            let i = choose|i: int|
                {
                    &&& 0 <= i < s.len()
                    &&& (#[trigger] s[i]).0 == x && s[i].1 == y
                    &&& s[i].2.piece_type is Pawn
                    &&& (s[i].2.color is White) == white
                    &&& if white {
                        y < promo
                    } else {
                        y > promo
                    }
                };
            if i < t.len() {
                assert(t[i] == s[i]);
            }
        }
    }
}

/// Pieces are readied by the sliders near the enemy king and the pieces at home of their
/// own side.
pub proof fn attacks_are_readied_by_their_own_side(game: GameState, white: bool)
    ensures
        ({
            let st = setting(game);
            let ready = if white {
                st.white_ready
            } else {
                st.black_ready
            };
            &&& ready <= 100
            &&& is_bare(counted(game), white) && (if white {
                game.black_king_pos is Some
            } else {
                game.white_king_pos is Some
            }) ==> ready <= 40
            &&& st.white_king == game.white_king_pos && st.black_king == game.black_king_pos
            &&& st.white_pawns == counted_white_side(game).own
            &&& st.black_pawns == counted_black_side(game).own
        }),
{
    let s = counted(game);
    assert(s.len() * 0 == 0);
    if is_bare(s, white) {
        lemma_sum_bounds(s, zone_term(white, game.black_king_pos), 0, 0);
        lemma_sum_bounds(s, zone_term(white, game.white_king_pos), 0, 0);
    }
}

/// Against a bare side a king fears no rays; its shelter is then that of its own ring and
/// of its own pawns.
pub proof fn shelter_is_that_of_the_own_king(game: GameState, i: int)
    requires
        0 <= i < counted(game).len() <= 100_000,
    ensures
        game.white_king_pos is None ==> shelter(game, true) == 0,
        game.black_king_pos is None ==> shelter(game, false) == 0,
        is_bare(counted(game), false) && game.white_king_pos is Some && ring_covered(
            counted(game),
            game.white_king_pos,
            true,
        ) ==> -45 <= shelter(game, true) <= 18,
        is_bare(counted(game), false) && game.white_king_pos is Some && !ring_covered(
            counted(game),
            game.white_king_pos,
            true,
        ) ==> shelter(game, true) <= -2,
        is_bare(counted(game), true) && game.black_king_pos is Some && ring_covered(
            counted(game),
            game.black_king_pos,
            false,
        ) ==> -45 <= shelter(game, false) <= 18,
        is_bare(counted(game), true) && game.black_king_pos is Some && !ring_covered(
            counted(game),
            game.black_king_pos,
            false,
        ) ==> shelter(game, false) <= -2,
{
    kings_fear_the_other_side(game, i);
    let phase = counted_phase(game);
    lemma_sum_bounds(counted(game), phase_term(), 0, 4);
    assert(is_phase(phase));
    weights_taper(45, 20, phase);
    weights_taper(18, 5, phase);
    weights_taper(20, 5, phase);
    weights_taper(25, 10, phase);
}

/// A rook against an enemy king with open ranks and files counts for its own side.
pub proof fn rooks_attack_along_open_rays(game: GameState, i: int)
    requires
        0 <= i < counted(game).len() <= 100_000,
        counted(game)[i].2.piece_type is Rook,
    ensures
        counted(game)[i].2.color is White && game.black_king_pos is Some && (forall|k: int|
            4 <= k < 8 ==> (#[trigger] king_rays(counted(game), game.black_king_pos)[k]).0 > 5)
            ==> king_attack(game, true) >= 40,
        counted(game)[i].2.color is Black && game.white_king_pos is Some && (forall|k: int|
            4 <= k < 8 ==> (#[trigger] king_rays(counted(game), game.white_king_pos)[k]).0 > 5)
            ==> king_attack(game, false) >= 40,
        game.black_king_pos is None ==> king_attack(game, true) == 0,
        game.white_king_pos is None ==> king_attack(game, false) == 0,
{
    let s = counted(game);
    lemma_sum_covers(s, ortho_term(true), i);
    lemma_sum_covers(s, ortho_term(false), i);
    lemma_sum_covers(s, diag_term(true), i);
    lemma_sum_covers(s, diag_term(false), i);
    lemma_sum_bounds(s, diag_term(true), 0, 1);
    lemma_sum_bounds(s, diag_term(false), 0, 1);
    lemma_sum_bounds(s, ortho_term(true), 0, 1);
    lemma_sum_bounds(s, ortho_term(false), 0, 1);
    let m = king_safety_metrics(game);
    lemma_ray_attack(4, m.white_slider_counts.1 as int);
    lemma_ray_attack(4, m.black_slider_counts.1 as int);
    let w = king_rays(s, game.white_king_pos);
    let b = king_rays(s, game.black_king_pos);
    lemma_ray_attack(open_rays(b, 0, 5), m.white_slider_counts.0 as int);
    lemma_ray_attack(open_rays(w, 0, 5), m.black_slider_counts.0 as int);
    assert(b[4] == b[4] && b[5] == b[5] && b[6] == b[6] && b[7] == b[7]);
    assert(w[4] == w[4] && w[5] == w[5] && w[6] == w[6] && w[7] == w[7]);
}

proof fn lemma_ray_attack(open: int, count: int)
    requires
        0 <= open <= 4,
        count >= 0,
    ensures
        ray_attack_bonus(open, count) >= 0,
        count >= 1 ==> ray_attack_bonus(open, count) >= 10 * open,
{
    if count > 0 {
        let p = open * 10 * (100 + (count - 1) * 15);
        assert(p >= 1000 * open) by (nonlinear_arith)
            requires
                p == open * 10 * (100 + (count - 1) * 15),
                count >= 1,
                open >= 0,
        ;
    }
}

/// A rook gains by its place before the enemy king: most next to it, on its file or beside
/// it from afar, and least where it merely comes near; and more behind it.
pub proof fn rooks_gain_near_the_king(
    x: int,
    y: int,
    color: PlayerColor,
    king: Coordinate,
    phase: int,
    dx: int,
    dy: int,
)
    requires
        is_phase(phase),
        dx == abs(x - king.x),
        dy == abs(y - king.y),
        dx <= 18,
        dy <= 18,
        // Not behind the king.
        color is White ==> y <= king.y,
        color is Black ==> y >= king.y,
    ensures
        ({
            let bonus = rook_king_bonus(x, y, color, king, None, phase);
            &&& dx >= 5 && dy >= 5 ==> bonus == 0
            &&& dx <= 1 && dy >= 5 ==> bonus == 50
            &&& dx == 0 && dy == 4 ==> bonus == 60
            &&& dx == 0 && 2 <= dy <= 3 ==> bonus == 90
            &&& dx == 0 && dy == 1 ==> bonus == 130
            &&& dx == 1 && dy == 0 ==> bonus == 130
            &&& dx == 1 && dy == 1 ==> bonus == 100
            &&& 2 <= dx <= 3 && dy == 0 ==> bonus == 40
            &&& dx == 4 && dy == 0 ==> bonus == 10
            &&& 2 <= dx <= 4 && 1 <= dy <= 4 ==> bonus == 10
        }),
{
}

/// A bishop on one of the long diagonals, or next to one, gains eight; behind the enemy
/// king it gains twenty to thirty.
pub proof fn bishops_like_long_diagonals(
    x: int,
    y: int,
    color: PlayerColor,
    king: Coordinate,
    phase: int,
)
    requires
        is_phase(phase),
        color is White || color is Black,
        abs(x - king.x) <= 18,
        abs(y - king.y) <= 18,
    ensures
        ({
            let none = Seq::<(i64, i64)>::empty();
            let alone = bishop_score(x, y, color, None, None, phase, none, none);
            let (w, b) = if color is White {
                (None, Some(king))
            } else {
                (Some(king), None)
            };
            let facing = bishop_score(x, y, color, w, b, phase, none, none);
            let behind = if color is White {
                y > king.y
            } else {
                y < king.y
            };
            &&& x == y || x == y + 1 || x + 1 == y || x + y == 7 || x + y == 8 || x + y == 9
                ==> alone == 8
            &&& abs(x - y) >= 2 && abs(x + y - 8) >= 2 ==> alone == 0
            &&& behind ==> 20 <= facing - alone <= 30
            &&& !behind ==> facing == alone
        }),
{
    weights_taper(40, 60, phase);
    let none = Seq::<(i64, i64)>::empty();
    assert(!pawn_supported(x, y, color, none));
}

/// A queen gains by a line to the enemy king where it is clear, and only there.
pub proof fn queens_need_a_clear_line(
    open: SpatialIndices,
    shut: SpatialIndices,
    x: i64,
    y: i64,
    color: PlayerColor,
    white_king: Option<Coordinate>,
    black_king: Option<Coordinate>,
    king: Coordinate,
    phase: int,
    white_pawns: Seq<(i64, i64)>,
    black_pawns: Seq<(i64, i64)>,
)
    requires
        is_phase(phase),
        color is White && black_king == Some(king) || color is Black && white_king == Some(king),
        clear_line_in(open, Coordinate { x, y }, king),
        !clear_line_in(shut, Coordinate { x, y }, king),
        abs(x - king.x) <= 1_000_000,
        abs(y - king.y) <= 1_000_000,
    ensures
        15 <= queen_score(
            open,
            x,
            y,
            color,
            white_king,
            black_king,
            phase,
            white_pawns,
            black_pawns,
        ) - queen_score(
            shut,
            x,
            y,
            color,
            white_king,
            black_king,
            phase,
            white_pawns,
            black_pawns,
        ) <= 85,
{
    let d = if abs(x - king.x) >= abs(y - king.y) {
        abs(x - king.x)
    } else {
        abs(y - king.y)
    };
    queens_like_a_line_to_the_king(x as int, y as int, color, king, phase, d);
}

/// Leapers have all of what nearness to the centre gives, and centaurs half.
pub proof fn leapers_have_their_nearness(
    st: PieceSetting,
    x: i64,
    y: i64,
    color: PlayerColor,
    c: Coordinate,
    d: int,
)
    requires
        st.center == Some(c),
        0 <= d,
        abs(x - c.x) <= d && abs(y - c.y) <= d,
        abs(x - c.x) == d || abs(y - c.y) == d,
    ensures
        ({
            let near = if d <= 10 {
                11 - d
            } else {
                0
            };
            &&& st.base_activity((x, y, Piece { piece_type: PieceType::Hawk, color })) == near
            &&& st.base_activity((x, y, Piece { piece_type: PieceType::Guard, color })) == near
            &&& st.base_activity((x, y, Piece { piece_type: PieceType::Camel, color })) == near
            &&& st.base_activity((x, y, Piece { piece_type: PieceType::Rose, color })) == near
            &&& st.base_activity((x, y, Piece { piece_type: PieceType::Centaur, color })) == near
                / 2
            &&& st.base_activity((x, y, Piece { piece_type: PieceType::RoyalCentaur, color }))
                == near / 2
        }),
{
    leapers_like_the_center(x as int, y as int, c, 600, d);
    leapers_like_the_center(x as int, y as int, c, 220, d);
    leapers_like_the_center(x as int, y as int, c, 270, d);
    leapers_like_the_center(x as int, y as int, c, 450, d);
    leapers_like_the_center(x as int, y as int, c, 550, d);
}

/// A pawn gains four for every rank it has come within six of promotion, loses fifty
/// farther off, and ninety once it is past; for its own side only.
pub proof fn pawns_gain_by_rank(p: (i64, i64, Piece), white: bool, promo: int, d: int)
    requires
        p.2.piece_type is Pawn,
        (p.2.color is White) == white,
        d == (if white {
            promo - p.1
        } else {
            p.1 - promo
        }),
    ensures
        1 <= d <= 6 ==> pawn_bonus_term(white, promo)(p) == 24 - 4 * d,
        d > 6 ==> pawn_bonus_term(white, promo)(p) == -50,
        d <= 0 ==> pawn_bonus_term(white, promo)(p) == 0,
        d <= 0 ==> pawn_penalty_term(white, promo)(p) == -90,
        d > 0 ==> pawn_penalty_term(white, promo)(p) == 0,
        pawn_bonus_term(!white, promo)(p) == 0,
        pawn_penalty_term(!white, promo)(p) == 0,
{
}

/// Advanced pawns count in full up to five pieces on the board, 18 percent less with each
/// further one, and a tenth at least.
pub proof fn pieces_hold_pawns_back(game: GameState, n: int)
    requires
        n == sum_of(counted(game), soldier_term()),
        n >= 0,
    ensures
        n <= 5 ==> advancement_percent(game) == 100,
        n == 6 ==> advancement_percent(game) == 82,
        n == 9 ==> advancement_percent(game) == 28,
        n >= 10 ==> advancement_percent(game) == 10,
        6 <= n <= 10 ==> advancement_percent(game) == 190 - 18 * n,
{
}

/// Danger counts the more the more there is of it, by seven tenths without an enemy queen,
/// and by the urgency of the defense.
pub proof fn danger_grows_with_itself(danger: int)
    requires
        0 <= danger <= 300,
    ensures
        800 * danger_penalty(danger, true, 100) <= 800 * danger + danger * danger < 800
            * danger_penalty(danger, true, 100) + 800 || danger_penalty(danger, true, 100) == 400,
        danger >= 10 ==> danger_penalty(danger, false, 100) < danger_penalty(danger, true, 100),
        danger_penalty(danger, true, 0) == 0,
        danger_penalty(100, true, 100) == 112,
        danger_penalty(100, false, 100) == 76,
        danger_penalty(100, true, 50) == 56,
{
    let q = danger * danger;
    assert(0 <= q <= 90_000) by (nonlinear_arith)
        requires
            q == danger * danger,
            0 <= danger <= 300,
    ;
    let d = tdiv(danger * 70, 100);
    let r = d * d;
    assert(0 <= r <= q) by (nonlinear_arith)
        requires
            r == d * d,
            q == danger * danger,
            0 <= d <= danger,
    ;
    let a = danger + tdiv(q, 800);
    let b = d + tdiv(r, 800);
    assert(b < a || danger < 10);
    let e = tdiv(7000, 100);
    assert(e * e == 4900) by (nonlinear_arith)
        requires
            e == 70,
    ;
    assert(a * 100 == 100 * a && b * 100 == 100 * b && a * 0 == 0);
}

/// The cloud is measured around the middle between the kings, or around the only one.
pub proof fn the_cloud_is_measured_between_the_kings(w: Coordinate, b: Coordinate)
    ensures
        ({
            let (x, y) = cloud_reference(Some(w), Some(b));
            &&& -1 <= 2 * x - (w.x + b.x) <= 1
            &&& -1 <= 2 * y - (w.y + b.y) <= 1
            &&& cloud_reference(Some(w), None) == (w.x as int, w.y as int)
            &&& cloud_reference(None, Some(b)) == (b.x as int, b.y as int)
            &&& cloud_reference(None, None) == (0int, 0int)
        }),
{
}

/// A side's rooks, queens and the like support pawns along files.
pub proof fn supporters_move_along_files(
    s: Seq<(i64, i64, Piece)>,
    p: (i64, i64, Piece),
    white: bool,
)
    ensures
        (p.2.color is White) == white && (p.2.piece_type is Rook || p.2.piece_type is Queen
            || p.2.piece_type is Chancellor || p.2.piece_type is Amazon
            || p.2.piece_type is RoyalQueen) ==> supporters(s.push(p), white) == supporters(
            s,
            white,
        ).push((p.0, p.1)),
        (p.2.color is White) != white || p.2.piece_type is Pawn || p.2.piece_type is Knight
            || p.2.piece_type is Bishop || p.2.piece_type is King ==> supporters(s.push(p), white)
            == supporters(s, white),
        supporters(Seq::<(i64, i64, Piece)>::empty(), white).len() == 0,
{
    assert(s.push(p).drop_last() =~= s);
}

/// Knights and bishops on starting squares are undeveloped, and no other piece is.
pub proof fn minor_pieces_at_home_are_undeveloped(
    starts: Seq<Coordinate>,
    p: (i64, i64, Piece),
    white: bool,
)
    requires
        (p.2.color is White) == white,
    ensures
        starts.contains(Coordinate { x: p.0, y: p.1 }) && (p.2.piece_type is Knight
            || p.2.piece_type is Bishop) ==> undeveloped_term(starts, white)(p) == 1,
        !starts.contains(Coordinate { x: p.0, y: p.1 }) ==> undeveloped_term(starts, white)(p)
            == 0,
        !(p.2.piece_type is Knight) && !(p.2.piece_type is Bishop) ==> undeveloped_term(
            starts,
            white,
        )(p) == 0,
        undeveloped_term(starts, !white)(p) == 0,
{
    if starts.contains(Coordinate { x: p.0, y: p.1 }) {
        let i = choose|i: int|
            0 <= i < starts.len() && #[trigger] starts[i] == (Coordinate { x: p.0, y: p.1 });
        assert(starts[i].x == p.0);
    } else {
        assert forall|i: int| 0 <= i < starts.len() implies !((#[trigger] starts[i]).x == p.0
            && starts[i].y == p.1) by {
            assert(starts.contains(starts[i]));
        }
    }
}

/// A pair of bishops is counted up for White and down for Black, and each king without
/// cover counts down.
pub proof fn features_are_counted_by_side(f: EvalFeatures, m: PieceMetrics, k: Coordinate)
    requires
        -1000 <= f.bishop_pair_bonus <= 1000,
        -1000 <= f.king_ring_missing_penalty <= 1000,
    ensures
        pieces_features(f, m).bishop_pair_bonus == f.bishop_pair_bonus + (if m.white_bishops >= 2 {
            1int
        } else {
            0
        }) - (if m.black_bishops >= 2 {
            1int
        } else {
            0
        }),
        king_features(f, Some(k), Some(k), true, true) == f,
        king_features(f, None, None, false, false) == f,
        king_features(f, Some(k), Some(k), false, true).king_ring_missing_penalty
            == f.king_ring_missing_penalty - 1,
        king_features(f, Some(k), Some(k), true, false).king_ring_missing_penalty
            == f.king_ring_missing_penalty - 1,
        king_features(f, Some(k), Some(k), false, false).king_ring_missing_penalty
            == f.king_ring_missing_penalty - 2,
        king_features(f, Some(k), None, false, false).king_ring_missing_penalty
            == f.king_ring_missing_penalty - 1,
{
}

} // verus!
