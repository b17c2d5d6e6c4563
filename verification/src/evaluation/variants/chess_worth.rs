//! What pieces and pawns are worth in orthodox chess, kind by kind.
use crate::arith::{abs, clamp, sum_of, tdiv};
use crate::board::{occupied, piece_at, Coordinate, Piece, PieceType, PlayerColor};
use crate::evaluation::variants::chess::{
    along, attack_weight_term, attacker_term, chess_phase_term, chess_score, doubled, eg_pawn,
    eg_pawns, eg_score, eg_term, isolated, king_penalty, king_square, knight_mobility, mg_pawn,
    mg_pawns, mg_score, mg_term, mobility, on_chess_board, passed, pawn_entries, reach, steps_left,
    straight_mobility, table_index, table_square, EG_MOBILITY, MG_MOBILITY,
};
use crate::evaluation::variants::chess_tables::{
    EG_BISHOP_PST, EG_KING_PST, EG_KNIGHT_PST, EG_PAWN_PST, EG_QUEEN_PST, EG_ROOK_PST,
    MG_BISHOP_PST, MG_KING_PST, MG_KNIGHT_PST, MG_PAWN_PST, MG_QUEEN_PST, MG_ROOK_PST,
};
use crate::game::GameState;
use vstd::prelude::*;

verus! {

/// The square of a piece in the tables: White reads them from the eighth rank down,
/// Black from the first rank up.
pub open spec fn read_at(p: (i64, i64, Piece)) -> int {
    let file = clamp(p.0 as int, 1, 8);
    let rank = clamp(p.1 as int, 1, 8);
    if p.2.color is White {
        (8 - rank) * 8 + file - 1
    } else {
        (rank - 1) * 8 + file - 1
    }
}

/// What a piece is worth in the middlegame: its kind, its place and the squares that
/// it can go to.
pub open spec fn mg_worth(board: Seq<(i64, i64, Piece)>, p: (i64, i64, Piece)) -> int {
    match p.2.piece_type {
        PieceType::Knight => 337 + MG_KNIGHT_PST@[read_at(p)] + 4 * mobility(board, p),
        PieceType::Bishop => 365 + MG_BISHOP_PST@[read_at(p)] + 3 * mobility(board, p),
        PieceType::Rook => 477 + MG_ROOK_PST@[read_at(p)] + 2 * mobility(board, p),
        PieceType::Queen => 1025 + MG_QUEEN_PST@[read_at(p)] + mobility(board, p),
        PieceType::King => MG_KING_PST@[read_at(p)] as int,
        _ => 82 + MG_PAWN_PST@[read_at(p)],
    }
}

/// What a piece is worth in the endgame.
pub open spec fn eg_worth(board: Seq<(i64, i64, Piece)>, p: (i64, i64, Piece)) -> int {
    match p.2.piece_type {
        PieceType::Knight => 281 + EG_KNIGHT_PST@[read_at(p)] + 4 * mobility(board, p),
        PieceType::Bishop => 297 + EG_BISHOP_PST@[read_at(p)] + 3 * mobility(board, p),
        PieceType::Rook => 512 + EG_ROOK_PST@[read_at(p)] + 4 * mobility(board, p),
        PieceType::Queen => 936 + EG_QUEEN_PST@[read_at(p)] + 2 * mobility(board, p),
        PieceType::King => EG_KING_PST@[read_at(p)] as int,
        _ => 94 + EG_PAWN_PST@[read_at(p)],
    }
}

/// What a piece is worth to a side.
pub open spec fn worth_to(board: Seq<(i64, i64, Piece)>, white: bool, middlegame: bool) -> spec_fn(
    (i64, i64, Piece),
) -> int {
    |p: (i64, i64, Piece)|
        if (p.2.color is White) != white {
            0
        } else if middlegame {
            mg_worth(board, p)
        } else {
            eg_worth(board, p)
        }
}

/// The worth of the pieces of one side.
pub open spec fn side_worth(board: Seq<(i64, i64, Piece)>, white: bool, middlegame: bool) -> int {
    sum_of(board, worth_to(board, white, middlegame))
}

proof fn lemma_same_sum<A>(s: Seq<A>, f: spec_fn(A) -> int, g: spec_fn(A) -> int)
    requires
        forall|i: int| 0 <= i < s.len() ==> f(#[trigger] s[i]) == g(s[i]),
    ensures
        sum_of(s, f) == sum_of(s, g),
    decreases s.len(),
{
    if s.len() > 0 {
        let t = s.drop_last();
        assert forall|i: int| 0 <= i < t.len() implies f(#[trigger] t[i]) == g(t[i]) by {
            assert(t[i] == s[i]);
        }
        lemma_same_sum(t, f, g);
        assert(s[s.len() - 1] == s.last());
    }
}

/// Every piece counts as its own kind, for its own side only.
pub proof fn pieces_count_as_their_kind(board: Seq<(i64, i64, Piece)>, p: (i64, i64, Piece))
    ensures
        mg_term(board, p.2.color is White)(p) == mg_worth(board, p),
        eg_term(board, p.2.color is White)(p) == eg_worth(board, p),
        mg_term(board, !(p.2.color is White))(p) == 0,
        eg_term(board, !(p.2.color is White))(p) == 0,
{
    assert(table_square(p.0 as int, p.1 as int, p.2.color is White) == read_at(p));
    let m = mobility(board, p);
    let i = table_index(p.2.piece_type);
    let a = MG_MOBILITY@[i] as int;
    let b = EG_MOBILITY@[i] as int;
    assert(m * a == (if a == 4 {
        4 * m
    } else if a == 3 {
        3 * m
    } else if a == 2 {
        2 * m
    } else if a == 1 {
        m
    } else {
        0
    })) by (nonlinear_arith)
        requires
            0 <= a <= 4,
    ;
    assert(m * b == (if b == 4 {
        4 * m
    } else if b == 3 {
        3 * m
    } else if b == 2 {
        2 * m
    } else {
        0
    })) by (nonlinear_arith)
        requires
            0 <= b <= 4,
            b != 1,
    ;
}

/// A side's score is the worth of its pieces and what its pawns add; in the middlegame
/// two or more enemy pieces near its king cost it.
pub proof fn sides_sum_their_pieces(game: GameState, white: bool)
    ensures
        eg_score(game, white) == side_worth(game.board@, white, false) + eg_pawns(
            pawn_entries(game.board@),
            white,
            pawn_entries(game.board@).len(),
        ),
        ({
            let s = game.board@;
            let king = if white {
                king_square(game.white_king_pos, true)
            } else {
                king_square(game.black_king_pos, false)
            };
            let attackers = sum_of(s, attacker_term(!white, king));
            let weight = sum_of(s, attack_weight_term(!white, king));
            let rest = side_worth(s, white, true) + mg_pawns(
                pawn_entries(s),
                white,
                pawn_entries(s).len(),
            );
            &&& attackers < 2 ==> mg_score(game, white) == rest
            &&& attackers >= 2 && weight >= 0 ==> mg_score(game, white) <= rest
            &&& attackers >= 2 && weight >= 40 ==> mg_score(game, white) <= rest - 8
        }),
{
    lemma_side_scores(game, white);
    let s = game.board@;
    let king = if white {
        king_square(game.white_king_pos, true)
    } else {
        king_square(game.black_king_pos, false)
    };
    attackers_in_numbers_hurt(
        sum_of(s, attacker_term(!white, king)),
        sum_of(s, attack_weight_term(!white, king)),
    );
}

/// One attacker alone does a king no harm; two or more do, by their number squared and
/// their weight.
pub proof fn attackers_in_numbers_hurt(attackers: int, weight: int)
    ensures
        attackers < 2 ==> king_penalty(attackers, weight) == 0,
        attackers >= 2 && weight >= 0 ==> king_penalty(attackers, weight) >= 0,
        attackers >= 2 && weight >= 40 ==> king_penalty(attackers, weight) >= 8,
        king_penalty(2, 40) == 8,
        king_penalty(3, 40) == 18,
{
    if attackers >= 2 && weight >= 0 {
        assert(attackers * attackers * weight >= 4 * weight) by (nonlinear_arith)
            requires
                attackers >= 2,
                weight >= 0,
        ;
    }
    assert(tdiv(160, 40) == 4 && tdiv(360, 40) == 9);
}

/// A score is the middlegame difference while all pieces are there, the endgame one
/// when they are gone, and in between a blend by the phase; it is for the side to move.
pub proof fn chess_scores_taper(game: GameState, phase: int)
    requires
        phase == sum_of(game.board@, chess_phase_term()),
        phase >= 0,
    ensures
        ({
            let mg = mg_score(game, true) - mg_score(game, false);
            let eg = eg_score(game, true) - eg_score(game, false);
            let own = if game.turn is White {
                1int
            } else {
                -1
            };
            &&& phase >= 24 ==> chess_score(game) == own * mg
            &&& phase == 0 ==> chess_score(game) == own * eg
            &&& phase < 24 ==> abs(24 * chess_score(game) - own * (mg * phase + eg * (24 - phase)))
                < 24
        }),
{
    let mg = mg_score(game, true) - mg_score(game, false);
    let eg = eg_score(game, true) - eg_score(game, false);
    let ph = if phase < 24 {
        phase
    } else {
        24
    };
    let a = mg * ph + eg * (24 - ph);
    assert((-mg) * ph + (-eg) * (24 - ph) == -a) by (nonlinear_arith)
        requires
            a == mg * ph + eg * (24 - ph),
    ;
    assert(ph == 24 ==> a == 24 * mg) by (nonlinear_arith)
        requires
            a == mg * ph + eg * (24 - ph),
    ;
    assert(ph == 0 ==> a == 24 * eg) by (nonlinear_arith)
        requires
            a == mg * ph + eg * (24 - ph),
    ;
    let b = if game.turn is White {
        a
    } else {
        -a
    };
    assert(chess_score(game) == tdiv(b, 24));
    assert(abs(24 * tdiv(b, 24) - b) < 24);
}

/// Each queen adds four to the phase, each rook two, each knight and bishop one.
pub proof fn officers_make_the_phase(p: (i64, i64, Piece))
    ensures
        chess_phase_term()(p) == (match p.2.piece_type {
            PieceType::Knight | PieceType::Bishop => 1int,
            PieceType::Rook => 2,
            PieceType::Queen => 4,
            _ => 0,
        }),
{
}

/// Knights, bishops, rooks and queens within three files and ranks of a king attack it,
/// the queen with the most weight.
pub proof fn officers_attack_the_king(p: (i64, i64, Piece), king: Coordinate)
    ensures
        ({
            let white = p.2.color is White;
            let near = abs(p.0 - king.x) <= 3 && abs(p.1 - king.y) <= 3;
            let weight = match p.2.piece_type {
                PieceType::Knight | PieceType::Bishop => 10int,
                PieceType::Rook => 20,
                PieceType::Queen => 40,
                _ => 0,
            };
            &&& attacker_term(white, king)(p) == (if near && weight > 0 {
                1int
            } else {
                0
            })
            &&& attack_weight_term(white, king)(p) == (if near {
                weight
            } else {
                0
            })
            &&& attacker_term(!white, king)(p) == 0
            &&& attack_weight_term(!white, king)(p) == 0
        }),
{
}

/// What a passed pawn gains in the middlegame and in the endgame, by the rank it has
/// reached as its side counts: the farther, the more.
pub open spec fn passed_gain(rank: int) -> (int, int) {
    if rank <= 1 {
        (0, 0)
    } else if rank == 2 {
        (0, 5)
    } else if rank == 3 {
        (0, 10)
    } else if rank == 4 {
        (10, 20)
    } else if rank == 5 {
        (20, 40)
    } else if rank == 6 {
        (40, 70)
    } else if rank == 7 {
        (80, 120)
    } else {
        (160, 200)
    }
}

/// A pawn without neighbours on the files beside it or with another before or behind it
/// costs its side; one that no enemy pawn can stop pays.
pub proof fn pawns_are_judged_by_their_neighbours(pawns: Seq<(i64, i64, bool)>, i: int)
    requires
        0 <= i < pawns.len(),
        forall|j: int|
            0 <= j < pawns.len() ==> 1 <= (#[trigger] pawns[j]).0 <= 8 && 1 <= pawns[j].1 <= 8,
    ensures
        ({
            let p = pawns[i];
            let alone = forall|j: int|
                0 <= j < pawns.len() && (#[trigger] pawns[j]).2 == p.2 ==> abs(pawns[j].0 - p.0)
                    != 1;
            let stacked = exists|j: int|
                0 <= j < pawns.len() && j != i && (#[trigger] pawns[j]).2 == p.2 && pawns[j].0
                    == p.0;
            let free = forall|j: int|
                0 <= j < pawns.len() && (#[trigger] pawns[j]).2 != p.2 && abs(pawns[j].0 - p.0)
                    <= 1 ==> if p.2 {
                    pawns[j].1 <= p.1
                } else {
                    pawns[j].1 >= p.1
                };
            let gain = if free {
                passed_gain(
                    if p.2 {
                        p.1 as int
                    } else {
                        9 - p.1
                    },
                )
            } else {
                (0, 0)
            };
            &&& mg_pawn(pawns, i) == gain.0 - (if alone {
                10int
            } else {
                0
            }) - (if stacked {
                10int
            } else {
                0
            })
            &&& eg_pawn(pawns, i) == gain.1 - (if alone {
                15int
            } else {
                0
            }) - (if stacked {
                10int
            } else {
                0
            })
        }),
{
    let p = pawns[i];
    assert(isolated(pawns, i) == (forall|j: int|
        0 <= j < pawns.len() && (#[trigger] pawns[j]).2 == p.2 ==> abs(pawns[j].0 - p.0) != 1))
        by {
        if isolated(pawns, i) {
            assert forall|j: int| 0 <= j < pawns.len() && (#[trigger] pawns[j]).2 == p.2 implies
                abs(pawns[j].0 - p.0) != 1 by {
                assert(clamp(pawns[j].0 - 1, 0, 7) == pawns[j].0 - 1);
            }
        } else {
            let j = choose|j: int|
                0 <= j < pawns.len() && (#[trigger] pawns[j]).2 == p.2 && abs(
                    clamp(pawns[j].0 - 1, 0, 7) - clamp(p.0 - 1, 0, 7),
                ) == 1;
            assert(clamp(pawns[j].0 - 1, 0, 7) == pawns[j].0 - 1);
            assert(abs(pawns[j].0 - p.0) == 1);
        }
    }
}

proof fn lemma_sum_update<A>(
    s: Seq<A>,
    i: int,
    q: A,
    f: spec_fn(A) -> int,
    g: spec_fn(A) -> int,
)
    requires
        0 <= i < s.len(),
        forall|j: int| 0 <= j < s.len() && j != i ==> f(#[trigger] s[j]) == g(s[j]),
    ensures
        sum_of(s.update(i, q), g) == sum_of(s, f) - f(s[i]) + g(q),
    decreases s.len(),
{
    let t = s.drop_last();
    let u = s.update(i, q);
    if i == s.len() - 1 {
        assert(u.drop_last() =~= t);
        assert forall|j: int| 0 <= j < t.len() implies f(#[trigger] t[j]) == g(t[j]) by {
            assert(t[j] == s[j]);
        }
        lemma_same_sum(t, f, g);
    } else {
        assert(u.drop_last() =~= t.update(i, q));
        assert forall|j: int| 0 <= j < t.len() && j != i implies f(#[trigger] t[j]) == g(
            t[j],
        ) by {
            assert(t[j] == s[j]);
        }
        lemma_sum_update(t, i, q, f, g);
        assert(f(s[s.len() - 1]) == g(s[s.len() - 1]));
    }
}

proof fn lemma_pawns_update(s: Seq<(i64, i64, Piece)>, i: int, q: (i64, i64, Piece))
    requires
        0 <= i < s.len(),
        !(s[i].2.piece_type is Pawn),
        !(q.2.piece_type is Pawn),
    ensures
        pawn_entries(s.update(i, q)) == pawn_entries(s),
    decreases s.len(),
{
    let t = s.drop_last();
    let u = s.update(i, q);
    if i == s.len() - 1 {
        assert(u.drop_last() =~= t);
    } else {
        assert(u.drop_last() =~= t.update(i, q));
        lemma_pawns_update(t, i, q);
    }
}

/// Two boards have pieces of the same color on a square, or both have none.
spec fn alike_at(
    s: Seq<(i64, i64, Piece)>,
    t: Seq<(i64, i64, Piece)>,
    x: int,
    y: int,
) -> bool {
    match (piece_at(s, x, y), piece_at(t, x, y)) {
        (Some(p), Some(q)) => p.color == q.color,
        (None, None) => true,
        _ => false,
    }
}

proof fn lemma_alike_reach(
    s: Seq<(i64, i64, Piece)>,
    t: Seq<(i64, i64, Piece)>,
    x: int,
    y: int,
    dx: int,
    dy: int,
    color: PlayerColor,
    sliding: bool,
)
    requires
        forall|i: int, j: int| #[trigger] alike_at(s, t, i, j),
    ensures
        reach(s, x, y, dx, dy, color, sliding) == reach(t, x, y, dx, dy, color, sliding),
    decreases steps_left(x, y, dx, dy),
{
    assert(alike_at(s, t, x, y));
    if on_chess_board(x, y) && sliding && (dx != 0 || dy != 0) {
        lemma_alike_reach(s, t, x + dx, y + dy, dx, dy, color, sliding);
    }
}

proof fn lemma_alike_mobility(
    s: Seq<(i64, i64, Piece)>,
    t: Seq<(i64, i64, Piece)>,
    p: (i64, i64, Piece),
)
    requires
        forall|i: int, j: int| #[trigger] alike_at(s, t, i, j),
    ensures
        mobility(s, p) == mobility(t, p),
{
    assert forall|dx: int, dy: int| #[trigger] along(s, p, dx, dy) == along(t, p, dx, dy) by {
        lemma_alike_reach(
            s,
            t,
            p.0 + dx,
            p.1 + dy,
            dx,
            dy,
            p.2.color,
            !(p.2.piece_type is Knight),
        );
    }
}

proof fn lemma_update_alike(s: Seq<(i64, i64, Piece)>, i: int, q: (i64, i64, Piece))
    requires
        0 <= i < s.len(),
        forall|j: int, k: int|
            0 <= j < k < s.len() ==> (#[trigger] s[j]).0 != (#[trigger] s[k]).0 || s[j].1
                != s[k].1,
        q.0 == s[i].0,
        q.1 == s[i].1,
        q.2.color == s[i].2.color,
    ensures
        forall|x: int, y: int| #[trigger] alike_at(s, s.update(i, q), x, y),
{
    let t = s.update(i, q);
    assert forall|x: int, y: int| #[trigger] alike_at(s, t, x, y) by {
        if occupied(s, x, y) {
            let j = choose|j: int| 0 <= j < s.len() && (#[trigger] s[j]).0 == x && s[j].1 == y;
            assert(t[j].0 == x && t[j].1 == y);
            assert(occupied(t, x, y));
            let k = choose|k: int| 0 <= k < t.len() && (#[trigger] t[k]).0 == x && t[k].1 == y;
            assert(s[k].0 == x && s[k].1 == y);
            assert(j == k);
        } else if occupied(t, x, y) {
            let k = choose|k: int| 0 <= k < t.len() && (#[trigger] t[k]).0 == x && t[k].1 == y;
            assert(s[k].0 == x && s[k].1 == y);
        }
    }
}

/// Putting another piece of its side in the place of a piece, pawns apart, changes that
/// side's scores by the difference of what the two are worth, and the other side's
/// endgame score not at all.
pub proof fn exchanging_pieces_exchanges_their_worth(a: GameState, b: GameState, i: int)
    requires
        a.board.wf(),
        0 <= i < a.board@.len(),
        b.board@.len() == a.board@.len(),
        forall|j: int| 0 <= j < a.board@.len() && j != i ==> #[trigger] b.board@[j] == a.board@[j],
        b.board@[i].0 == a.board@[i].0,
        b.board@[i].1 == a.board@[i].1,
        b.board@[i].2.color == a.board@[i].2.color,
        !(a.board@[i].2.piece_type is Pawn),
        !(b.board@[i].2.piece_type is Pawn),
        a.white_king_pos == b.white_king_pos,
        a.black_king_pos == b.black_king_pos,
    ensures
        ({
            let white = a.board@[i].2.color is White;
            let s = a.board@;
            let t = b.board@;
            &&& mg_score(b, white) - mg_score(a, white) == mg_worth(t, t[i]) - mg_worth(s, s[i])
            &&& eg_score(b, white) - eg_score(a, white) == eg_worth(t, t[i]) - eg_worth(s, s[i])
            &&& eg_score(b, !white) == eg_score(a, !white)
        }),
{
    let s = a.board@;
    let t = b.board@;
    let q = t[i];
    let white = q.2.color is White;
    assert(t =~= s.update(i, q));
    lemma_update_alike(s, i, q);
    lemma_pawns_update(s, i, q);
    assert forall|j: int| 0 <= j < s.len() implies mobility(s, #[trigger] s[j]) == mobility(
        t,
        s[j],
    ) by {
        lemma_alike_mobility(s, t, s[j]);
    }
    lemma_sum_update(s, i, q, worth_to(s, white, true), worth_to(t, white, true));
    lemma_sum_update(s, i, q, worth_to(s, white, false), worth_to(t, white, false));
    lemma_sum_update(s, i, q, worth_to(s, !white, false), worth_to(t, !white, false));
    let king = if white {
        king_square(a.white_king_pos, true)
    } else {
        king_square(a.black_king_pos, false)
    };
    lemma_sum_update(s, i, q, attacker_term(!white, king), attacker_term(!white, king));
    lemma_sum_update(s, i, q, attack_weight_term(!white, king), attack_weight_term(!white, king));
    lemma_side_scores(a, white);
    lemma_side_scores(b, white);
    sides_sum_their_pieces(a, !white);
    sides_sum_their_pieces(b, !white);
}

/// A rook in a knight's place is worth 140 more to its side in the middlegame and 231
/// more in the endgame, apart from what the square gives to each and from the squares
/// that each can go to.
pub proof fn rooks_outweigh_knights(a: GameState, b: GameState, i: int)
    requires
        a.board.wf(),
        0 <= i < a.board@.len(),
        b.board@.len() == a.board@.len(),
        forall|j: int| 0 <= j < a.board@.len() && j != i ==> #[trigger] b.board@[j] == a.board@[j],
        b.board@[i].0 == a.board@[i].0,
        b.board@[i].1 == a.board@[i].1,
        b.board@[i].2.color == a.board@[i].2.color,
        a.board@[i].2.piece_type is Knight,
        b.board@[i].2.piece_type is Rook,
        a.white_king_pos == b.white_king_pos,
        a.black_king_pos == b.black_king_pos,
    ensures
        ({
            let p = a.board@[i];
            let white = p.2.color is White;
            let leaps = knight_mobility(a.board@, p);
            let slides = straight_mobility(b.board@, b.board@[i]);
            &&& mg_score(b, white) - mg_score(a, white) == 477 - 337 + MG_ROOK_PST@[read_at(p)]
                - MG_KNIGHT_PST@[read_at(p)] + 2 * slides - 4 * leaps
            &&& eg_score(b, white) - eg_score(a, white) == 512 - 281 + EG_ROOK_PST@[read_at(p)]
                - EG_KNIGHT_PST@[read_at(p)] + 4 * slides - 4 * leaps
        }),
{
    exchanging_pieces_exchanges_their_worth(a, b, i);
}

/// A lone piece counts what it is worth and nothing else; a lone pawn is isolated and
/// passed.
pub proof fn lone_pieces_count_their_worth(game: GameState)
    requires
        game.board@.len() == 1,
        1 <= game.board@[0].0 <= 8,
        1 <= game.board@[0].1 <= 8,
    ensures
        ({
            let p = game.board@[0];
            let white = p.2.color is White;
            let gain = passed_gain(
                if white {
                    p.1 as int
                } else {
                    9 - p.1
                },
            );
            &&& mg_score(game, white) == mg_worth(game.board@, p) + (if p.2.piece_type is Pawn {
                gain.0 - 10
            } else {
                0
            })
            &&& eg_score(game, white) == eg_worth(game.board@, p) + (if p.2.piece_type is Pawn {
                gain.1 - 15
            } else {
                0
            })
            &&& mg_score(game, !white) == 0
            &&& eg_score(game, !white) == 0
        }),
{
    let s = game.board@;
    let p = s[0];
    let white = p.2.color is White;
    assert(s.drop_last() =~= Seq::<(i64, i64, Piece)>::empty());
    let pawns = pawn_entries(s);
    reveal_with_fuel(pawn_entries, 2);
    reveal_with_fuel(sum_of, 2);
    reveal_with_fuel(mg_pawns, 2);
    reveal_with_fuel(eg_pawns, 2);
    pieces_count_as_their_kind(s, p);
    if p.2.piece_type is Pawn {
        assert(pawns =~= seq![(p.0, p.1, white)]);
        pawns_are_judged_by_their_neighbours(pawns, 0);
        assert(!doubled(pawns, 0));
        assert(isolated(pawns, 0));
        assert(passed(pawns, 0));
    } else {
        assert(pawns =~= Seq::<(i64, i64, bool)>::empty());
    }
}

/// A side's middlegame score as its pieces, its pawns and its king have it.
proof fn lemma_side_scores(game: GameState, white: bool)
    ensures
        ({
            let s = game.board@;
            let king = if white {
                king_square(game.white_king_pos, true)
            } else {
                king_square(game.black_king_pos, false)
            };
            mg_score(game, white) == side_worth(s, white, true) + mg_pawns(
                pawn_entries(s),
                white,
                pawn_entries(s).len(),
            ) - king_penalty(
                sum_of(s, attacker_term(!white, king)),
                sum_of(s, attack_weight_term(!white, king)),
            )
        }),
        eg_score(game, white) == side_worth(game.board@, white, false) + eg_pawns(
            pawn_entries(game.board@),
            white,
            pawn_entries(game.board@).len(),
        ),
{
    let s = game.board@;
    assert forall|i: int| 0 <= i < s.len() implies mg_term(s, white)(#[trigger] s[i]) == worth_to(
        s,
        white,
        true,
    )(s[i]) && eg_term(s, white)(s[i]) == worth_to(s, white, false)(s[i]) by {
        pieces_count_as_their_kind(s, s[i]);
    }
    lemma_same_sum(s, mg_term(s, white), worth_to(s, white, true));
    lemma_same_sum(s, eg_term(s, white), worth_to(s, white, false));
}

/// The squares of a line from `(x, y)` on that are on the board.
spec fn on_board_ahead(x: int, y: int, dx: int, dy: int) -> int {
    let across = if dx > 0 {
        9 - x
    } else if dx < 0 {
        x
    } else {
        8
    };
    let up = if dy > 0 {
        9 - y
    } else if dy < 0 {
        y
    } else {
        8
    };
    if across < up {
        across
    } else {
        up
    }
}

proof fn lemma_free_line(
    board: Seq<(i64, i64, Piece)>,
    x: int,
    y: int,
    dx: int,
    dy: int,
    color: PlayerColor,
    n: int,
)
    requires
        -1 <= dx <= 1,
        -1 <= dy <= 1,
        dx != 0 || dy != 0,
        0 <= x <= 9,
        0 <= y <= 9,
        n == on_board_ahead(x, y, dx, dy),
        dx == 0 ==> 1 <= x <= 8,
        dy == 0 ==> 1 <= y <= 8,
        dx > 0 ==> x >= 1,
        dx < 0 ==> x <= 8,
        dy > 0 ==> y >= 1,
        dy < 0 ==> y <= 8,
        forall|i: int, j: int| 1 <= i <= n ==> !#[trigger] occupied(
            board,
            x + (i - 1) * dx,
            j,
        ) || j != y + (i - 1) * dy,
    ensures
        reach(board, x, y, dx, dy, color, true) == n,
    decreases n,
{
    if n > 0 {
        assert((1 - 1) * dx == 0 && (1 - 1) * dy == 0);
        assert(!occupied(board, x + (1 - 1) * dx, y));
        assert(on_board_ahead(x + dx, y + dy, dx, dy) == n - 1);
        assert forall|i: int, j: int| 1 <= i <= n - 1 implies !#[trigger] occupied(
            board,
            x + dx + (i - 1) * dx,
            j,
        ) || j != y + dy + (i - 1) * dy by {
            assert(x + dx + (i - 1) * dx == x + (i + 1 - 1) * dx) by (nonlinear_arith);
            assert(y + dy + (i - 1) * dy == y + (i + 1 - 1) * dy) by (nonlinear_arith);
            assert(!occupied(board, x + (i + 1 - 1) * dx, j) || j != y + (i + 1 - 1) * dy);
        }
        lemma_free_line(board, x + dx, y + dy, dx, dy, color, n - 1);
    }
}

/// On an otherwise empty board a rook can go to fourteen squares from wherever it
/// stands, and a queen to as many along its file and rank.
pub proof fn lone_rooks_have_fourteen_squares(p: (i64, i64, Piece))
    requires
        1 <= p.0 <= 8,
        1 <= p.1 <= 8,
        p.2.piece_type is Rook || p.2.piece_type is Queen,
    ensures
        straight_mobility(seq![p], p) == 14,
        p.2.piece_type is Rook ==> mobility(seq![p], p) == 14,
{
    let s = seq![p];
    let x = p.0 as int;
    let y = p.1 as int;
    lemma_free_line(s, x + 1, y, 1, 0, p.2.color, 8 - x);
    lemma_free_line(s, x - 1, y, -1, 0, p.2.color, x - 1);
    lemma_free_line(s, x, y + 1, 0, 1, p.2.color, 8 - y);
    lemma_free_line(s, x, y - 1, 0, -1, p.2.color, y - 1);
}

/// On an otherwise empty board a bishop can go to seven squares from the edge and to
/// two more with every ring towards the center.
pub proof fn lone_bishops_like_the_center(p: (i64, i64, Piece), ring: int)
    requires
        1 <= p.0 <= 8,
        1 <= p.1 <= 8,
        p.2.piece_type is Bishop,
        ring <= p.0 - 1,
        ring <= 8 - p.0,
        ring <= p.1 - 1,
        ring <= 8 - p.1,
        ring == p.0 - 1 || ring == 8 - p.0 || ring == p.1 - 1 || ring == 8 - p.1,
    ensures
        mobility(seq![p], p) == 7 + 2 * ring,
{
    let s = seq![p];
    let x = p.0 as int;
    let y = p.1 as int;
    let c = p.2.color;
    lemma_free_line(s, x + 1, y + 1, 1, 1, c, on_board_ahead(x + 1, y + 1, 1, 1));
    lemma_free_line(s, x + 1, y - 1, 1, -1, c, on_board_ahead(x + 1, y - 1, 1, -1));
    lemma_free_line(s, x - 1, y + 1, -1, 1, c, on_board_ahead(x - 1, y + 1, -1, 1));
    lemma_free_line(s, x - 1, y - 1, -1, -1, c, on_board_ahead(x - 1, y - 1, -1, -1));
}

/// A line ends before an own piece and on an enemy one.
pub proof fn lines_end_at_pieces(
    board: Seq<(i64, i64, Piece)>,
    p: (i64, i64, Piece),
    dx: int,
    dy: int,
    other: Piece,
)
    requires
        1 <= p.0 + dx <= 8,
        1 <= p.1 + dy <= 8,
        piece_at(board, p.0 + dx, p.1 + dy) == Some(other),
    ensures
        other.color == p.2.color ==> along(board, p, dx, dy) == 0,
        p.2.color is White && other.color is Black ==> along(board, p, dx, dy) == 1,
        p.2.color is Black && other.color is White ==> along(board, p, dx, dy) == 1,
        other.color is Neutral ==> along(board, p, dx, dy) == 0,
{
}

/// A queen can go where a rook and where a bishop in its place could.
pub proof fn queens_go_like_rooks_and_bishops(
    board: Seq<(i64, i64, Piece)>,
    x: i64,
    y: i64,
    color: PlayerColor,
)
    ensures
        mobility(board, (x, y, Piece { piece_type: PieceType::Queen, color })) == mobility(
            board,
            (x, y, Piece { piece_type: PieceType::Rook, color }),
        ) + mobility(board, (x, y, Piece { piece_type: PieceType::Bishop, color })),
        mobility(board, (x, y, Piece { piece_type: PieceType::King, color })) == 0,
        mobility(board, (x, y, Piece { piece_type: PieceType::Pawn, color })) == 0,
{
}

/// On an otherwise empty board a knight can go to eight squares from the sixteen in the
/// middle, and to two from a corner.
pub proof fn lone_knights_like_the_center(p: (i64, i64, Piece))
    requires
        p.2.piece_type is Knight,
        1 <= p.0 <= 8,
        1 <= p.1 <= 8,
    ensures
        3 <= p.0 <= 6 && 3 <= p.1 <= 6 ==> mobility(seq![p], p) == 8,
        (p.0 == 1 || p.0 == 8) && (p.1 == 1 || p.1 == 8) ==> mobility(seq![p], p) == 2,
{
    let s = seq![p];
    assert forall|dx: int, dy: int| dx != 0 implies #[trigger] along(s, p, dx, dy) == (
    if on_chess_board(p.0 + dx, p.1 + dy) {
        1int
    } else {
        0
    }) by {
        assert(!occupied(s, p.0 + dx, p.1 + dy));
    }
}

} // verus!
