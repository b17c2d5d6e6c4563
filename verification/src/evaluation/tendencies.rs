//! What helps a side and what hurts it, whatever else a position holds.
use crate::arith::{abs, cheb, clamp, max, min, sum_of, tdiv};
use crate::board::{piece_at, Coordinate, Piece, PieceType, PlayerColor};
use crate::evaluation::base::{advancement, advancement_percent, counted, material_term};
use crate::evaluation::buffers::lemma_sorted_squares;
use crate::evaluation::king_safety::{
    blocker_reduction, danger_penalty, ray_attack_bonus, ray_penalty, shelter_score, shield_score,
    KingRay, RayStop,
};
use crate::evaluation::metrics::{
    attack_tropism_term, defense_tropism_term, front_bonus, front_rank, pawn_bonus_term,
    pawn_penalty_term, pawn_threat_term, soldier_term,
};
use crate::evaluation::pawns::{has_pawn, live_pawn, live_pawns, on_file, sorted_pawns};
use crate::evaluation::pieces::{
    bishop_pair, bishop_score, cloud_penalty, knight_score, leaper_score, own_king_term,
    queen_score, rook_score, PieceSetting,
};
use crate::evaluation::values::{is_phase, of_side, piece_phase, piece_value, tapered};
use crate::game::GameState;
use crate::moves::SpatialIndices;
use vstd::prelude::*;

verus! {

/// A weight is the middlegame one while all pieces are there and the endgame one when
/// they are gone; in between it lies between the two.
pub proof fn weights_taper(mg: int, eg: int, phase: int)
    requires
        0 <= phase <= 24,
        0 <= mg,
        0 <= eg,
    ensures
        tapered(mg, eg, 24) == mg,
        tapered(mg, eg, 0) == eg,
        mg <= eg ==> mg <= tapered(mg, eg, phase) <= eg,
        eg <= mg ==> eg <= tapered(mg, eg, phase) <= mg,
{
    let sum = mg * phase + eg * (24 - phase);
    assert(0 <= mg * 24 + eg * 0 && 0 <= mg * 0 + eg * 24) by (nonlinear_arith)
        requires
            0 <= mg,
            0 <= eg,
    ;
    let lo = min(mg, eg);
    let hi = if mg <= eg {
        eg
    } else {
        mg
    };
    assert(lo * 24 <= sum <= hi * 24) by (nonlinear_arith)
        requires
            sum == mg * phase + eg * (24 - phase),
            0 <= phase <= 24,
            lo <= mg <= hi,
            lo <= eg <= hi,
    ;
}

/// What the kinds of pieces are worth, and how much they add to the phase: the pawn
/// the least, and of two pieces that move alike the one that moves farther more.
pub proof fn kinds_have_their_worth()
    ensures
        piece_value(PieceType::Pawn) == 100,
        piece_value(PieceType::Knight) == 250,
        piece_value(PieceType::Bishop) == 450,
        piece_value(PieceType::Rook) == 650,
        piece_value(PieceType::Queen) == 1350,
        piece_value(PieceType::Amazon) == 1600,
        piece_value(PieceType::Chancellor) == 1000,
        piece_value(PieceType::Archbishop) == 900,
        piece_value(PieceType::Hawk) == 600,
        piece_value(PieceType::Knightrider) == 700,
        piece_value(PieceType::Centaur) == 550,
        piece_value(PieceType::Guard) == 220,
        piece_value(PieceType::Camel) == 270,
        piece_value(PieceType::Giraffe) == 260,
        piece_value(PieceType::Zebra) == 260,
        piece_value(PieceType::Rose) == 450,
        piece_value(PieceType::Huygen) == 355,
        piece_value(PieceType::King) == 270,
        piece_value(PieceType::RoyalQueen) == 1400,
        piece_value(PieceType::RoyalCentaur) == 600,
        piece_value(PieceType::Void) == 0 && piece_value(PieceType::Obstacle) == 0,
        piece_phase(PieceType::Queen) == 4 && piece_phase(PieceType::Rook) == 2,
        piece_phase(PieceType::Bishop) == 1 && piece_phase(PieceType::Knight) == 1,
        piece_phase(PieceType::Pawn) == 0 && piece_phase(PieceType::King) == 0,
{
}

/// A piece more raises the material of its side by its worth and lowers it for the
/// other; neutral ones do not count.
pub proof fn pieces_add_their_worth(board: Seq<(i64, i64, Piece)>, p: (i64, i64, Piece))
    ensures
        ({
            let gain = sum_of(board.push(p), material_term()) - sum_of(board, material_term());
            &&& p.2.color is White ==> gain == piece_value(p.2.piece_type)
            &&& p.2.color is Black ==> gain == -piece_value(p.2.piece_type)
            &&& p.2.color is Neutral ==> gain == 0
        }),
{
    assert(board.push(p).drop_last() =~= board);
}

/// The bonus of the foremost pawn by the ranks it has to go: the nearer, the more.
pub proof fn foremost_pawns_count_by_distance(y: i64, white: bool, promo: int, d: int)
    requires
        d == (if white {
            promo - y
        } else {
            y - promo
        }),
        1 <= d,
    ensures
        d == 1 ==> front_bonus(Some(y), white, promo) == 500,
        d == 2 ==> front_bonus(Some(y), white, promo) == 350,
        3 <= d <= 10 ==> front_bonus(Some(y), white, promo) == (10 - d) * 40,
        d >= 10 ==> front_bonus(Some(y), white, promo) == 0,
{
}

/// The foremost pawn of a list is one of it, and none stands before it.
proof fn lemma_front(s: Seq<(i64, i64)>, white: bool)
    ensures
        s.len() == 0 ==> front_rank(s, white) is None,
        s.len() > 0 ==> (front_rank(s, white) matches Some(m) && (exists|i: int|
            0 <= i < s.len() && (#[trigger] s[i]).1 == m) && forall|i: int|
            0 <= i < s.len() ==> if white {
                (#[trigger] s[i]).1 <= m
            } else {
                s[i].1 >= m
            }),
    decreases s.len(),
{
    if s.len() > 0 {
        let t = s.drop_last();
        lemma_front(t, white);
        let m = front_rank(s, white)->0;
        assert(s[s.len() - 1] == s.last());
        assert forall|i: int| 0 <= i < s.len() implies if white {
            (#[trigger] s[i]).1 <= m
        } else {
            s[i].1 >= m
        } by {
            if i < t.len() {
                assert(t[i] == s[i]);
            }
        }
        if t.len() > 0 {
            let k = choose|k: int|
                0 <= k < t.len() && (#[trigger] t[k]).1 == front_rank(t, white)->0;
            assert(s[k] == t[k]);
        }
    }
}

/// Whether a live pawn stands on a square.
spec fn stands_live(
    s: Seq<(i64, i64, Piece)>,
    white: bool,
    promo: int,
    q: (i64, i64),
) -> bool {
    exists|i: int|
        0 <= i < s.len() && live_pawn(#[trigger] s[i], white, promo) && (s[i].0, s[i].1) == q
}

/// The live pawns are the squares of the pieces that are live pawns.
proof fn lemma_live_members(s: Seq<(i64, i64, Piece)>, white: bool, promo: int)
    ensures
        forall|i: int|
            0 <= i < s.len() && live_pawn(#[trigger] s[i], white, promo) ==> live_pawns(
                s,
                white,
                promo,
            ).contains((s[i].0, s[i].1)),
        forall|k: int|
            0 <= k < live_pawns(s, white, promo).len() ==> stands_live(
                s,
                white,
                promo,
                #[trigger] live_pawns(s, white, promo)[k],
            ),
    decreases s.len(),
{
    if s.len() > 0 {
        let t = s.drop_last();
        lemma_live_members(t, white, promo);
        let a = live_pawns(t, white, promo);
        let b = live_pawns(s, white, promo);
        assert forall|i: int|
            0 <= i < s.len() && live_pawn(#[trigger] s[i], white, promo) implies b.contains(
            (s[i].0, s[i].1),
        ) by {
            if i < t.len() {
                assert(t[i] == s[i]);
                assert(a.contains((t[i].0, t[i].1)));
                let k = choose|k: int| 0 <= k < a.len() && #[trigger] a[k] == (t[i].0, t[i].1);
                assert(b[k] == a[k]);
            } else {
                assert(b[b.len() - 1] == (s[i].0, s[i].1));
            }
        }
        assert forall|k: int| 0 <= k < b.len() implies stands_live(
            s,
            white,
            promo,
            #[trigger] b[k],
        ) by {
            if k < a.len() {
                assert(b[k] == a[k]);
                assert(stands_live(t, white, promo, a[k]));
                let i = choose|i: int|
                    0 <= i < t.len() && live_pawn(#[trigger] t[i], white, promo) && (t[i].0, t[i].1)
                        == a[k];
                assert(s[i] == t[i]);
            } else {
                assert(s[s.len() - 1] == s.last());
            }
        }
    }
}

/// The foremost live pawn of pieces.
proof fn lemma_front_live(s: Seq<(i64, i64, Piece)>, white: bool, promo: int)
    ensures
        front_rank(sorted_pawns(s, white, promo), white) matches Some(m) ==> (exists|i: int|
            0 <= i < s.len() && live_pawn(#[trigger] s[i], white, promo) && s[i].1 == m)
            && forall|i: int|
            0 <= i < s.len() && live_pawn(#[trigger] s[i], white, promo) ==> if white {
                s[i].1 <= m
            } else {
                s[i].1 >= m
            },
        front_rank(sorted_pawns(s, white, promo), white) is None ==> forall|i: int|
            0 <= i < s.len() ==> !live_pawn(#[trigger] s[i], white, promo),
{
    let u = live_pawns(s, white, promo);
    let t = sorted_pawns(s, white, promo);
    lemma_sorted_squares(u);
    lemma_live_members(s, white, promo);
    lemma_front(t, white);
    assert forall|i: int| 0 <= i < s.len() && live_pawn(#[trigger] s[i], white, promo) implies
        exists|k: int| 0 <= k < t.len() && #[trigger] t[k] == (s[i].0, s[i].1) by {
        assert(u.contains((s[i].0, s[i].1)));
        assert(t.contains((s[i].0, s[i].1)));
    }
    if t.len() > 0 {
        let m = front_rank(t, white)->0;
        let k = choose|k: int| 0 <= k < t.len() && (#[trigger] t[k]).1 == m;
        assert(t.contains(t[k]));
        assert(u.contains(t[k]));
        let j = choose|j: int| 0 <= j < u.len() && #[trigger] u[j] == t[k];
        assert(stands_live(s, white, promo, u[j]));
        let i = choose|i: int|
            0 <= i < s.len() && live_pawn(#[trigger] s[i], white, promo) && (s[i].0, s[i].1)
                == u[j];
        assert(s[i].1 == m);
    }
}

proof fn lemma_sum_update<A>(s: Seq<A>, i: int, v: A, f: spec_fn(A) -> int)
    requires
        0 <= i < s.len(),
    ensures
        sum_of(s.update(i, v), f) == sum_of(s, f) - f(s[i]) + f(v),
    decreases s.len(),
{
    if i == s.len() - 1 {
        assert(s.update(i, v).drop_last() =~= s.drop_last());
    } else {
        assert(s.update(i, v).drop_last() =~= s.drop_last().update(i, v));
        assert(s.update(i, v).last() == s.last());
        lemma_sum_update(s.drop_last(), i, v, f);
    }
}

/// A pawn that comes a rank nearer to promotion never costs its side anything, and
/// within seven ranks of it pays, while few pieces can stop it.
pub proof fn advancing_a_pawn_pays(game: GameState, after: GameState, i: int, white: bool)
    requires
        after.white_promo_rank == game.white_promo_rank,
        after.black_promo_rank == game.black_promo_rank,
        0 <= i < counted(game).len(),
        counted(game)[i].2.piece_type is Pawn,
        (counted(game)[i].2.color is White) == white,
        ({
            let p = counted(game)[i];
            // Two ranks away at least, so that it is still short of promotion after.
            &&& if white {
                p.1 + 2 <= game.white_promo_rank
            } else {
                p.1 - 2 >= game.black_promo_rank
            }
            &&& counted(after) == counted(game).update(
                i,
                (
                    p.0,
                    (if white {
                        p.1 + 1
                    } else {
                        p.1 - 1
                    }) as i64,
                    p.2,
                ),
            )
        }),
    ensures
        advancement(after, white) >= advancement(game, white),
        sum_of(counted(game), soldier_term()) <= 5 && (if white {
            game.white_promo_rank - counted(game)[i].1
        } else {
            counted(game)[i].1 - game.black_promo_rank
        }) <= 7 ==> advancement(after, white) >= advancement(game, white) + 4,
        advancement(after, !white) == advancement(game, !white),
{
    let s = counted(game);
    let t = counted(after);
    let promo = if white {
        game.white_promo_rank as int
    } else {
        game.black_promo_rank as int
    };
    let other = if white {
        game.black_promo_rank as int
    } else {
        game.white_promo_rank as int
    };
    let p = s[i];
    let q = t[i];
    lemma_sum_update(s, i, q, pawn_bonus_term(white, promo));
    lemma_sum_update(s, i, q, pawn_penalty_term(white, promo));
    lemma_sum_update(s, i, q, soldier_term());
    lemma_sum_update(s, i, q, pawn_bonus_term(!white, other));
    lemma_sum_update(s, i, q, pawn_penalty_term(!white, other));
    lemma_front_live(s, white, promo);
    lemma_front_live(t, white, promo);
    assert(live_pawn(s[i], white, promo) && live_pawn(t[i], white, promo));
    let a = front_rank(sorted_pawns(s, white, promo), white)->0;
    let b = front_rank(sorted_pawns(t, white, promo), white)->0;
    let k = choose|k: int|
        0 <= k < s.len() && live_pawn(#[trigger] s[k], white, promo) && s[k].1 == a;
    assert(live_pawn(t[k], white, promo));
    assert(if white {
        a <= b < promo
    } else {
        a >= b > promo
    });
    assert(front_bonus(Some(b), white, promo) >= front_bonus(Some(a), white, promo));
    lemma_same_others(s, i, q, !white, other);
    let x = sum_of(s, pawn_bonus_term(white, promo)) + front_bonus(Some(a), white, promo);
    let y = sum_of(t, pawn_bonus_term(white, promo)) + front_bonus(Some(b), white, promo);
    let percent = advancement_percent(game);
    assert(x <= y);
    assert(x * percent <= y * percent) by (nonlinear_arith)
        requires
            x <= y,
            0 <= percent,
    ;
    if percent == 100 {
        assert(x * percent == 100 * x && y * percent == 100 * y) by (nonlinear_arith)
            requires
                percent == 100,
        ;
        assert(tdiv(100 * x, 100) == x && tdiv(100 * y, 100) == y);
    }
}

/// A change of one side's pawn leaves the other side's pawns alone.
proof fn lemma_same_others(
    s: Seq<(i64, i64, Piece)>,
    i: int,
    q: (i64, i64, Piece),
    white: bool,
    promo: int,
)
    requires
        0 <= i < s.len(),
        !of_side(s[i].2, white),
        !of_side(q.2, white),
    ensures
        live_pawns(s.update(i, q), white, promo) == live_pawns(s, white, promo),
    decreases s.len(),
{
    if i == s.len() - 1 {
        assert(s.update(i, q).drop_last() =~= s.drop_last());
    } else {
        assert(s.update(i, q).drop_last() =~= s.drop_last().update(i, q));
        assert(s.update(i, q).last() == s.last());
        lemma_same_others(s.drop_last(), i, q, white, promo);
    }
}

/// A rook gains from a file without own pawns, most where there are none at all.
pub proof fn rooks_like_open_files(
    x: int,
    y: int,
    color: PlayerColor,
    white_king: Option<Coordinate>,
    black_king: Option<Coordinate>,
    phase: int,
    white_pawns: Seq<(i64, i64)>,
    black_pawns: Seq<(i64, i64)>,
    other_white: Seq<(i64, i64)>,
    other_black: Seq<(i64, i64)>,
)
    requires
        // On the one side a file with an own pawn, on the other one without.
        on_file(if color is White {
            other_white
        } else {
            other_black
        }, x),
        !on_file(if color is White {
            white_pawns
        } else {
            black_pawns
        }, x),
    ensures
        ({
            let gain = rook_score(
                x,
                y,
                color,
                white_king,
                black_king,
                phase,
                white_pawns,
                black_pawns,
            ) - rook_score(
                x,
                y,
                color,
                white_king,
                black_king,
                phase,
                other_white,
                other_black,
            );
            gain == (if on_file(if color is White {
                black_pawns
            } else {
                white_pawns
            }, x) {
                20int
            } else {
                45
            })
        }),
{
}

/// So does a queen, less.
pub proof fn queens_like_open_files(
    indices: SpatialIndices,
    x: i64,
    y: i64,
    color: PlayerColor,
    white_king: Option<Coordinate>,
    black_king: Option<Coordinate>,
    phase: int,
    white_pawns: Seq<(i64, i64)>,
    black_pawns: Seq<(i64, i64)>,
    other_white: Seq<(i64, i64)>,
    other_black: Seq<(i64, i64)>,
)
    requires
        on_file(if color is White {
            other_white
        } else {
            other_black
        }, x as int),
        !on_file(if color is White {
            white_pawns
        } else {
            black_pawns
        }, x as int),
    ensures
        ({
            let gain = queen_score(
                indices,
                x,
                y,
                color,
                white_king,
                black_king,
                phase,
                white_pawns,
                black_pawns,
            ) - queen_score(
                indices,
                x,
                y,
                color,
                white_king,
                black_king,
                phase,
                other_white,
                other_black,
            );
            gain == (if on_file(if color is White {
                black_pawns
            } else {
                white_pawns
            }, x as int) {
                10int
            } else {
                25
            })
        }),
{
}

/// A rook is worth more on the far side of the enemy king than on its near side, at
/// the same distance from it and where both kings are near.
pub proof fn rooks_like_to_be_behind_the_king(
    x: int,
    near: int,
    far: int,
    color: PlayerColor,
    king: Coordinate,
    phase: int,
    white_pawns: Seq<(i64, i64)>,
    black_pawns: Seq<(i64, i64)>,
)
    requires
        is_phase(phase),
        color is White || color is Black,
        abs(near - king.y) == abs(far - king.y),
        if color is White {
            near < king.y < far
        } else {
            far < king.y < near
        },
    ensures
        ({
            let (wk, bk) = if color is White {
                (None, Some(king))
            } else {
                (Some(king), None)
            };
            40 <= rook_score(x, far, color, wk, bk, phase, white_pawns, black_pawns) - rook_score(
                x,
                near,
                color,
                wk,
                bk,
                phase,
                white_pawns,
                black_pawns,
            ) <= 60
        }),
{
}

/// A knight or a bishop that an own pawn protects stands on an outpost.
pub proof fn outposts_are_worth_having(
    x: int,
    y: int,
    color: PlayerColor,
    center: Option<Coordinate>,
    white_king: Option<Coordinate>,
    black_king: Option<Coordinate>,
    phase: int,
    white_pawns: Seq<(i64, i64)>,
    black_pawns: Seq<(i64, i64)>,
    other_white: Seq<(i64, i64)>,
    other_black: Seq<(i64, i64)>,
)
    requires
        is_phase(phase),
        color is White || color is Black,
        ({
            let (own, other, behind) = if color is White {
                (white_pawns, other_white, y - 1)
            } else {
                (black_pawns, other_black, y + 1)
            };
            &&& has_pawn(own, x - 1, behind) || has_pawn(own, x + 1, behind)
            &&& !has_pawn(other, x - 1, behind) && !has_pawn(other, x + 1, behind)
        }),
    ensures
        20 <= knight_score(x, y, color, center, phase, white_pawns, black_pawns) - knight_score(
            x,
            y,
            color,
            center,
            phase,
            other_white,
            other_black,
        ) <= 50,
        phase == 0 ==> knight_score(x, y, color, center, phase, white_pawns, black_pawns)
            - knight_score(x, y, color, center, phase, other_white, other_black) == 50,
        20 <= bishop_score(
            x,
            y,
            color,
            white_king,
            black_king,
            phase,
            white_pawns,
            black_pawns,
        ) - bishop_score(
            x,
            y,
            color,
            white_king,
            black_king,
            phase,
            other_white,
            other_black,
        ) <= 50,
{
}

/// A leaper that is worth less than 2400 gains one for each square that it is nearer
/// than eleven to the centre of the pieces.
pub proof fn leapers_like_the_center(x: int, y: int, c: Coordinate, value: int, d: int)
    requires
        0 <= value < 2400,
        0 <= d,
        // The distance, as a king goes.
        abs(x - c.x) <= d && abs(y - c.y) <= d,
        abs(x - c.x) == d || abs(y - c.y) == d,
    ensures
        leaper_score(x, y, Some(c), value) == (if d <= 10 {
            11 - d
        } else {
            0
        }),
        leaper_score(x, y, None, value) == 0,
{
    let scale = max(tdiv(value, 400), 1);
    assert(1 <= scale <= 5);
    assert(max(tdiv(scale, 3), 1) == 1);
}

/// A pair of bishops is worth more than one bishop, and more on both colors.
pub proof fn two_bishops_are_a_pair(bishops: int, colors: (bool, bool), phase: int)
    requires
        is_phase(phase),
    ensures
        bishops < 2 ==> bishop_pair(bishops, colors, phase) == 0,
        bishops >= 2 ==> 60 <= bishop_pair(bishops, (false, false), phase) <= 80,
        bishops >= 2 ==> bishop_pair(bishops, (true, true), phase) == bishop_pair(
            bishops,
            (true, false),
            phase,
        ) + 20,
{
}

/// A piece within sixteen squares of the centre of all pieces is not penalized, nor is
/// a pawn or a royal piece; a far one is the more, the farther its lines pass it, and
/// nobody gains by being far.
pub proof fn far_pieces_are_penalized(
    pt: PieceType,
    x: int,
    y: int,
    c: Coordinate,
    phase: int,
)
    requires
        is_phase(phase),
    ensures
        cloud_penalty(pt, x, y, c, phase) >= 0,
        abs(x - c.x) <= 16 && abs(y - c.y) <= 16 ==> cloud_penalty(pt, x, y, c, phase) == 0,
        pt is Pawn || pt is King ==> cloud_penalty(pt, x, y, c, phase) == 0,
        // A knight twenty squares or more away.
        pt is Knight && (abs(x - c.x) >= 20 || abs(y - c.y) >= 20) ==> cloud_penalty(
            pt,
            x,
            y,
            c,
            phase,
        ) > 0,
        // A rook whose rank or file passes the centre within five squares.
        pt is Rook && (abs(x - c.x) <= 5 || abs(y - c.y) <= 5) ==> cloud_penalty(
            pt,
            x,
            y,
            c,
            phase,
        ) == 0,
{
    let mult = tapered(100, 40, phase);
    weights_taper(100, 40, phase);
    let factor = max(tdiv(piece_value(pt), 100), 1);
    let d = cheb(x, y, c.x as int, c.y as int);
    assert forall|e: int| e > 0 implies #[trigger] min(e, 64) * factor * mult >= 40 * min(
        e,
        64,
    ) by {
        let m = min(e, 64);
        assert(m * factor * mult >= 40 * m) by (nonlinear_arith)
            requires
                m >= 0,
                factor >= 1,
                mult >= 40,
        ;
    }
    if pt is Knight && d > 16 {
        assert(min(d - 16, 64) * factor * mult >= 40 * min(d - 16, 64));
    }
}

/// A knight, a bishop or an archbishop on a square where a piece started is less active
/// than it would be if none had.
pub proof fn development_pays(st: PieceSetting, fresh: PieceSetting, p: (i64, i64, Piece))
    requires
        fresh == (PieceSetting { starts: fresh.starts, ..st }),
        st.starts.contains(Coordinate { x: p.0, y: p.1 }),
        !fresh.starts.contains(Coordinate { x: p.0, y: p.1 }),
    ensures
        fresh.raw_activity(p) - st.raw_activity(p) == (match p.2.piece_type {
            PieceType::Knight | PieceType::Bishop => 9int,
            PieceType::Archbishop => 6,
            _ => 0,
        }),
{
    let i = choose|i: int|
        0 <= i < st.starts.len() && #[trigger] st.starts[i] == (Coordinate { x: p.0, y: p.1 });
    assert(st.starts[i].x == p.0);
    assert forall|k: int| 0 <= k < fresh.starts.len() implies !((#[trigger] fresh.starts[k]).x
        == p.0 && fresh.starts[k].y == p.1) by {
        assert(fresh.starts.contains(fresh.starts[k]));
    }
}

/// Cheap pieces within three squares of their own king are welcome there, expensive
/// ones are not.
pub proof fn kings_like_cheap_defenders(
    pt: PieceType,
    x: int,
    y: int,
    king: Coordinate,
    phase: int,
)
    requires
        is_phase(phase),
    ensures
        ({
            let term = own_king_term(pt, x, y, Some(king), phase);
            &&& abs(x - king.x) > 3 || abs(y - king.y) > 3 ==> term == 0
            &&& abs(x - king.x) <= 3 && abs(y - king.y) <= 3 && (pt is Knight || pt is Guard)
                ==> 2 <= term <= 6
            &&& abs(x - king.x) <= 3 && abs(y - king.y) <= 3 && (pt is Queen || pt is Rook
                || pt is Bishop) ==> -8 <= term <= -2
        }),
{
}

/// A pawn that attacks an enemy piece gains, the more the piece is worth; own pieces
/// and pawns are no targets.
pub proof fn pawn_attacks_count(
    board: Seq<(i64, i64, Piece)>,
    p: (i64, i64, Piece),
    left: Option<Piece>,
    right: Option<Piece>,
    white: bool,
)
    requires
        p.2.piece_type is Pawn,
        (p.2.color is White) == white,
        ({
            let ahead = if white {
                p.1 + 1
            } else {
                p.1 - 1
            };
            left == piece_at(board, p.0 - 1, ahead) && right == piece_at(board, p.0 + 1, ahead)
        }),
    ensures
        pawn_threat_term(board, white)(p) == target_worth(left, white) + target_worth(
            right,
            white,
        ),
        pawn_threat_term(board, !white)(p) == 0,
{
}

/// What a pawn gains by attacking a piece.
pub open spec fn target_worth(target: Option<Piece>, white: bool) -> int {
    match target {
        Some(t) => if t.color != (if white {
            PlayerColor::Black
        } else {
            PlayerColor::White
        }) {
            0
        } else {
            match t.piece_type {
                PieceType::Queen | PieceType::Amazon | PieceType::Chancellor => 60,
                PieceType::Archbishop | PieceType::RoyalQueen | PieceType::RoyalCentaur => 60,
                PieceType::Hawk | PieceType::Knightrider | PieceType::Rook => 60,
                PieceType::Bishop | PieceType::Rose | PieceType::Centaur => 40,
                PieceType::Pawn | PieceType::Void | PieceType::Obstacle => 0,
                _ => 25,
            }
        },
        None => 0,
    }
}

/// A piece near a king counts more than one that is farther away, and the more the
/// more it is worth: as an attacker of the enemy's, and up to 350 as a defender of its
/// own.
pub proof fn nearness_to_kings_counts(
    p: (i64, i64, Piece),
    king: Coordinate,
    white: bool,
    d: int,
)
    requires
        (p.2.color is White) == white,
        !(p.2.piece_type is Pawn),
        !p.2.piece_type.royal(),
        0 <= d <= 1_000_000,
        abs(p.0 - king.x) <= d && abs(p.1 - king.y) <= d,
        abs(p.0 - king.x) == d || abs(p.1 - king.y) == d,
    ensures
        ({
            let value = piece_value(p.2.piece_type);
            let attack = attack_tropism_term(white, Some(king))(p);
            let defense = defense_tropism_term(white, Some(king))(p);
            &&& attack * (d + 10) <= value < (attack + 1) * (d + 10)
            &&& defense * (d + 10) <= min(value, 350) < (defense + 1) * (d + 10)
        }),
        attack_tropism_term(!white, Some(king))(p) == 0,
        defense_tropism_term(!white, Some(king))(p) == 0,
{
    let value = piece_value(p.2.piece_type);
    let n = d + 10;
    assert((d as i32) as int == d);
    let v = min(value, 350);
    let a = value / n;
    let b = v / n;
    assert(a * n <= value < (a + 1) * n) by (nonlinear_arith)
        requires
            a == value / n,
            n > 0,
            value >= 0,
    ;
    assert(b * n <= v < (b + 1) * n) by (nonlinear_arith)
        requires
            b == v / n,
            n > 0,
            v >= 0,
    ;
}

/// A king without cover next to it, without pawns before it, or on an open file that
/// is under attack is worse off; pawns behind it only do not help.
pub proof fn kings_like_shelter(
    bounds: (i64, i64, i64, i64),
    king: Coordinate,
    color: PlayerColor,
    phase: int,
    urgency: int,
    enemy_queen: bool,
    attackers: int,
    pawns: Seq<(i64, i64)>,
    rays: Seq<KingRay>,
)
    requires
        is_phase(phase),
    ensures
        ({
            let covered = shelter_score(
                bounds,
                king,
                color,
                phase,
                urgency,
                enemy_queen,
                attackers,
                pawns,
                rays,
                true,
            );
            let bare = shelter_score(
                bounds,
                king,
                color,
                phase,
                urgency,
                enemy_queen,
                attackers,
                pawns,
                rays,
                false,
            );
            20 <= covered - bare <= 45
        }),
        attackers > 0 && !on_file(pawns, king.x as int) ==> 10 <= shield_score(
            pawns,
            king,
            color is White,
            0,
            phase,
        ) - shield_score(pawns, king, color is White, attackers, phase) <= 25,
        on_file(pawns, king.x as int) ==> shield_score(
            pawns,
            king,
            color is White,
            attackers,
            phase,
        ) == shield_score(pawns, king, color is White, 0, phase),
{
}

/// One pawn within two files before a king shelters it, one behind it is a sign that
/// the king went ahead of its pawns.
pub proof fn pawns_shelter_from_the_front(
    king: Coordinate,
    white: bool,
    phase: int,
    p: (i64, i64),
)
    requires
        is_phase(phase),
        abs(p.0 - king.x) <= 2,
        p.1 != king.y,
    ensures
        ({
            let score = shield_score(seq![p], king, white, 0, phase);
            if (p.1 > king.y) == white {
                5 <= score <= 18
            } else {
                -20 <= score <= -5
            }
        }),
{
    let s = seq![p];
    assert(s[0] == p);
    assert(forall|i: int| 0 <= i < s.len() ==> #[trigger] s[i] == p);
}

/// A ray to a king that nothing stops is the most dangerous, one that an enemy piece
/// closes is less, and one that a cheap piece next to the king closes the least.
pub proof fn blockers_lessen_danger(base: int)
    requires
        0 <= base <= 100,
    ensures
        ray_penalty(base, RayStop::Open) == base,
        ray_penalty(base, RayStop::Enemy) == base * 60 / 100,
        ray_penalty(base, RayStop::Blocked(100, 1)) == base * 20 / 100,
        forall|v: i32, d: i32|
            0 <= #[trigger] ray_penalty(base, RayStop::Blocked(v, d)) <= base,
{
    let shield = clamp(90 - tdiv(100, 10), 0, 80);
    let near = clamp(125 - 1 * 25, 30, 100);
    assert(shield * near == 8000) by (nonlinear_arith)
        requires
            shield == 80,
            near == 100,
    ;
    assert(blocker_reduction(100, 1) == 80);
    assert forall|v: i32, d: i32| 0 <= #[trigger] ray_penalty(base, RayStop::Blocked(v, d))
        <= base by {
        let a = clamp(90 - tdiv(v as int, 10), 0, 80);
        let b = clamp(125 - d * 25, 30, 100);
        assert(0 <= a * b <= 8000) by (nonlinear_arith)
            requires
                0 <= a <= 80,
                30 <= b <= 100,
        ;
        let kept = 100 - blocker_reduction(v as int, d as int);
        assert(20 <= kept <= 100);
        assert(0 <= base * kept <= base * 100) by (nonlinear_arith)
            requires
                0 <= base,
                0 <= kept <= 100,
        ;
    }
}

/// Danger never helps a king: the more, the worse; worse with a queen against it, and
/// never more than 400.
pub proof fn danger_hurts(danger: int, more: int, urgency: int)
    requires
        0 <= danger <= more,
        0 <= urgency,
    ensures
        0 <= danger_penalty(danger, true, urgency) <= danger_penalty(more, true, urgency) <= 400,
        danger_penalty(danger, false, urgency) <= danger_penalty(danger, true, urgency),
        urgency >= 100 && danger <= 400 ==> danger_penalty(danger, true, urgency) >= danger,
{
    lemma_danger(danger, more, urgency);
    lemma_danger(tdiv(danger * 70, 100), danger, urgency);
    if urgency >= 100 {
        let amplified = danger + tdiv(danger * danger, 800);
        assert(0 <= danger * danger) by (nonlinear_arith);
        assert(amplified * urgency >= 100 * danger) by (nonlinear_arith)
            requires
                amplified >= danger,
                danger >= 0,
                urgency >= 100,
        ;
    }
}

proof fn lemma_danger(a: int, b: int, urgency: int)
    requires
        0 <= a <= b,
        0 <= urgency,
    ensures
        0 <= tdiv((a + tdiv(a * a, 800)) * urgency, 100) <= tdiv(
            (b + tdiv(b * b, 800)) * urgency,
            100,
        ),
{
    assert(0 <= a * a <= b * b) by (nonlinear_arith)
        requires
            0 <= a <= b,
    ;
    let x = a + tdiv(a * a, 800);
    let y = b + tdiv(b * b, 800);
    assert(0 <= x <= y);
    assert(0 <= x * urgency <= y * urgency) by (nonlinear_arith)
        requires
            0 <= x <= y,
            0 <= urgency,
    ;
}

/// An attack on a king gains ten for each open ray with one slider against it, and
/// more with more sliders; without sliders there is none.
pub proof fn sliders_attack_along_open_rays(open: int, count: int)
    requires
        0 <= open <= 4,
        0 <= count,
    ensures
        ray_attack_bonus(open, 0) == 0,
        ray_attack_bonus(open, 1) == 10 * open,
        count >= 1 ==> ray_attack_bonus(open, count + 1) >= ray_attack_bonus(open, count),
        open >= 1 ==> ray_attack_bonus(open, 2) > ray_attack_bonus(open, 1),
{
    let a = 100 + (count - 1) * 15;
    let b = 100 + count * 15;
    let one = 100 + (1 - 1) * 15;
    let two = 100 + (2 - 1) * 15;
    assert(open * 10 * one == 1000 * open && open * 10 * two == 1150 * open) by (nonlinear_arith)
        requires
            one == 100,
            two == 115,
    ;
    if count >= 1 {
        assert(0 <= open * 10 * a <= open * 10 * b) by (nonlinear_arith)
            requires
                0 <= open,
                0 <= a <= b,
        ;
    }
}

} // verus!
