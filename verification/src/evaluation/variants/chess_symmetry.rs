//! Chess evaluation treats both sides alike: a position and its mirror image
//! with colors exchanged have the same score.
use crate::arith::{abs, clamp, sum_of};
use crate::board::{occupied, piece_at, Coordinate, Piece, PlayerColor};
use crate::evaluation::values::{in_range, of_side, COORD_LIMIT};
use crate::evaluation::variants::chess::{
    along, attack_weight_term, attacker_term, attacks_king, chess_evaluable, chess_phase_term,
    chess_score, doubled, eg_pawn, eg_pawns, eg_score, eg_term, isolated, king_square, mg_pawn,
    mg_pawns, mg_score, mg_term, mobility, on_chess_board, own_rank, passed, pawn_entries, reach,
    steps_left, table_square,
};
use crate::game::GameState;
use vstd::prelude::*;

verus! {

/// A piece on the mirrored rank, with the other color.
pub open spec fn mirrored(p: (i64, i64, Piece)) -> (i64, i64, Piece) {
    (
        p.0,
        (9 - p.1) as i64,
        Piece { piece_type: p.2.piece_type, color: p.2.color.opponent_spec() },
    )
}

pub open spec fn mirrored_board(s: Seq<(i64, i64, Piece)>) -> Seq<(i64, i64, Piece)> {
    s.map_values(|p: (i64, i64, Piece)| mirrored(p))
}

pub open spec fn mirrored_king(king: Option<Coordinate>) -> Option<Coordinate> {
    match king {
        Some(k) => Some(Coordinate { x: k.x, y: (9 - k.y) as i64 }),
        None => None,
    }
}

/// `b` is the mirror image of `a` with colors exchanged, the side to move
/// included.
pub open spec fn mirrors(a: GameState, b: GameState) -> bool {
    &&& b.board@ == mirrored_board(a.board@)
    &&& b.white_king_pos == mirrored_king(a.black_king_pos)
    &&& b.black_king_pos == mirrored_king(a.white_king_pos)
    &&& b.turn == a.turn.opponent_spec()
}

/// Every piece belongs to one of the two sides and stands in range, no two on
/// one square.
pub open spec fn two_sided(s: Seq<(i64, i64, Piece)>) -> bool {
    &&& forall|i: int|
        0 <= i < s.len() ==> !((#[trigger] s[i]).2.color is Neutral) && in_range(
            s[i].0 as int,
            s[i].1 as int,
        )
    &&& forall|i: int, j: int|
        0 <= i < j < s.len() ==> (#[trigger] s[i]).0 != (#[trigger] s[j]).0 || s[i].1 != s[j].1
}

proof fn lemma_piece_at(s: Seq<(i64, i64, Piece)>, k: int)
    requires
        two_sided(s),
        0 <= k < s.len(),
    ensures
        occupied(s, s[k].0 as int, s[k].1 as int),
        piece_at(s, s[k].0 as int, s[k].1 as int) == Some(s[k].2),
{
    let x = s[k].0 as int;
    let y = s[k].1 as int;
    let i = choose|i: int| 0 <= i < s.len() && (#[trigger] s[i]).0 == x && s[i].1 == y;
    assert(s[k].0 == x && s[k].1 == y);
    if i < k {
        assert(s[i].0 != s[k].0 || s[i].1 != s[k].1);
    }
    if k < i {
        assert(s[k].0 != s[i].0 || s[k].1 != s[i].1);
    }
}

proof fn lemma_mirrored_two_sided(s: Seq<(i64, i64, Piece)>)
    requires
        two_sided(s),
        forall|i: int| 0 <= i < s.len() ==> -COORD_LIMIT + 9 <= (#[trigger] s[i]).1,
    ensures
        two_sided(mirrored_board(s)),
{
    let t = mirrored_board(s);
    assert forall|i: int| 0 <= i < t.len() implies !((#[trigger] t[i]).2.color is Neutral)
        && in_range(t[i].0 as int, t[i].1 as int) by {
        assert(t[i] == mirrored(s[i]));
    }
    assert forall|i: int, j: int| 0 <= i < j < t.len() implies (#[trigger] t[i]).0 != (
    #[trigger] t[j]).0 || t[i].1 != t[j].1 by {
        assert(t[i] == mirrored(s[i]) && t[j] == mirrored(s[j]));
        assert(s[i].0 != s[j].0 || s[i].1 != s[j].1);
    }
}

/// The mirrored square holds the mirrored piece.
proof fn lemma_mirrored_square(s: Seq<(i64, i64, Piece)>, x: int, y: int)
    requires
        two_sided(s),
        two_sided(mirrored_board(s)),
    ensures
        piece_at(mirrored_board(s), x, 9 - y) == (match piece_at(s, x, y) {
            Some(p) => Some(
                Piece { piece_type: p.piece_type, color: p.color.opponent_spec() },
            ),
            None => None,
        }),
{
    let t = mirrored_board(s);
    if occupied(s, x, y) {
        let k = choose|k: int| 0 <= k < s.len() && (#[trigger] s[k]).0 == x && s[k].1 == y;
        lemma_piece_at(s, k);
        assert(t[k] == mirrored(s[k]));
        lemma_piece_at(t, k);
    } else {
        if occupied(t, x, 9 - y) {
            let k = choose|k: int| 0 <= k < t.len() && (#[trigger] t[k]).0 == x && t[k].1 == 9 - y;
            assert(t[k] == mirrored(s[k]));
            assert(s[k].0 == x && s[k].1 == y);
        }
    }
}

/// A direction reaches as far as its mirror image.
proof fn lemma_reach(
    s: Seq<(i64, i64, Piece)>,
    x: int,
    y: int,
    dx: int,
    dy: int,
    color: PlayerColor,
    sliding: bool,
)
    requires
        two_sided(s),
        two_sided(mirrored_board(s)),
        !(color is Neutral),
    ensures
        reach(mirrored_board(s), x, 9 - y, dx, -dy, color.opponent_spec(), sliding) == reach(
            s,
            x,
            y,
            dx,
            dy,
            color,
            sliding,
        ),
    decreases steps_left(x, y, dx, dy),
{
    if on_chess_board(x, y) {
        lemma_mirrored_square(s, x, y);
        match piece_at(s, x, y) {
            Some(p) => {
                let k = choose|k: int| 0 <= k < s.len() && (#[trigger] s[k]).0 == x && s[k].1 == y;
                lemma_piece_at(s, k);
            },
            None => {
                if sliding && (dx != 0 || dy != 0) {
                    lemma_reach(s, x + dx, y + dy, dx, dy, color, sliding);
                    assert(9 - y + -dy == 9 - (y + dy));
                }
            },
        }
    }
}

proof fn lemma_along(s: Seq<(i64, i64, Piece)>, p: (i64, i64, Piece), dx: int, dy: int)
    requires
        two_sided(s),
        two_sided(mirrored_board(s)),
        !(p.2.color is Neutral),
        -COORD_LIMIT + 9 <= p.1 <= COORD_LIMIT,
    ensures
        along(mirrored_board(s), mirrored(p), dx, -dy) == along(s, p, dx, dy),
{
    lemma_reach(s, p.0 + dx, p.1 + dy, dx, dy, p.2.color, !(p.2.piece_type is Knight));
    assert(mirrored(p).1 + -dy == 9 - (p.1 + dy));
}

/// A piece has the mobility of its mirror image.
proof fn lemma_mobility(s: Seq<(i64, i64, Piece)>, p: (i64, i64, Piece))
    requires
        two_sided(s),
        two_sided(mirrored_board(s)),
        !(p.2.color is Neutral),
        -COORD_LIMIT + 9 <= p.1 <= COORD_LIMIT,
    ensures
        mobility(mirrored_board(s), mirrored(p)) == mobility(s, p),
{
    lemma_along(s, p, 1, 1);
    lemma_along(s, p, 1, -1);
    lemma_along(s, p, -1, 1);
    lemma_along(s, p, -1, -1);
    lemma_along(s, p, 1, 0);
    lemma_along(s, p, -1, 0);
    lemma_along(s, p, 0, 1);
    lemma_along(s, p, 0, -1);
    lemma_along(s, p, 2, 1);
    lemma_along(s, p, 2, -1);
    lemma_along(s, p, -2, 1);
    lemma_along(s, p, -2, -1);
    lemma_along(s, p, 1, 2);
    lemma_along(s, p, 1, -2);
    lemma_along(s, p, -1, 2);
    lemma_along(s, p, -1, -2);
}

/// Terms that agree piece by piece have the same sum.
proof fn lemma_mirrored_sum(
    s: Seq<(i64, i64, Piece)>,
    f: spec_fn((i64, i64, Piece)) -> int,
    g: spec_fn((i64, i64, Piece)) -> int,
)
    requires
        forall|i: int| 0 <= i < s.len() ==> f(mirrored(#[trigger] s[i])) == g(s[i]),
    ensures
        sum_of(mirrored_board(s), f) == sum_of(s, g),
    decreases s.len(),
{
    if s.len() > 0 {
        let t = s.drop_last();
        assert(mirrored_board(s).drop_last() =~= mirrored_board(t));
        assert forall|i: int| 0 <= i < t.len() implies f(mirrored(#[trigger] t[i])) == g(t[i]) by {
            assert(t[i] == s[i]);
        }
        lemma_mirrored_sum(t, f, g);
        assert(mirrored_board(s).last() == mirrored(s.last()));
        assert(s.last() == s[s.len() - 1]);
    }
}

/// A piece reads its table at the square that its mirror image reads.
pub proof fn tables_flip_with_the_side(x: int, y: int, white: bool)
    ensures
        table_square(x, 9 - y, !white) == table_square(x, y, white),
{
}

/// A pawn on the mirrored rank, of the other color.
pub open spec fn mirrored_pawn(p: (i64, i64, bool)) -> (i64, i64, bool) {
    (p.0, (9 - p.1) as i64, !p.2)
}

pub open spec fn mirrored_pawns(s: Seq<(i64, i64, bool)>) -> Seq<(i64, i64, bool)> {
    s.map_values(|p: (i64, i64, bool)| mirrored_pawn(p))
}

proof fn lemma_pawn_entries(s: Seq<(i64, i64, Piece)>)
    requires
        forall|i: int| 0 <= i < s.len() ==> !((#[trigger] s[i]).2.color is Neutral),
    ensures
        pawn_entries(mirrored_board(s)) == mirrored_pawns(pawn_entries(s)),
    decreases s.len(),
{
    if s.len() > 0 {
        let t = s.drop_last();
        assert(mirrored_board(s).drop_last() =~= mirrored_board(t));
        assert forall|i: int| 0 <= i < t.len() implies !((#[trigger] t[i]).2.color is Neutral) by {
            assert(t[i] == s[i]);
        }
        lemma_pawn_entries(t);
        assert(mirrored_board(s).last() == mirrored(s.last()));
        assert(!(s[s.len() - 1].2.color is Neutral));
    }
    assert(pawn_entries(mirrored_board(s)) =~= mirrored_pawns(pawn_entries(s)));
}

/// Pawns stand where pieces stand.
proof fn lemma_pawns_from(s: Seq<(i64, i64, Piece)>, lo: int, hi: int)
    requires
        forall|i: int| 0 <= i < s.len() ==> lo <= (#[trigger] s[i]).1 <= hi,
    ensures
        forall|i: int|
            0 <= i < pawn_entries(s).len() ==> lo <= (#[trigger] pawn_entries(s)[i]).1 <= hi,
    decreases s.len(),
{
    if s.len() > 0 {
        let t = s.drop_last();
        assert forall|i: int| 0 <= i < t.len() implies lo <= (#[trigger] t[i]).1 <= hi by {
            assert(t[i] == s[i]);
        }
        lemma_pawns_from(t, lo, hi);
        assert(lo <= s[s.len() - 1].1 <= hi);
        let e = pawn_entries(s);
        assert forall|i: int| 0 <= i < e.len() implies lo <= (#[trigger] e[i]).1 <= hi by {
            if i < pawn_entries(t).len() {
                assert(e[i] == pawn_entries(t)[i]);
            }
        }
    }
}

/// A pawn scores as its mirror image does.
proof fn lemma_pawn_score(pawns: Seq<(i64, i64, bool)>, i: int)
    requires
        0 <= i < pawns.len(),
        forall|k: int|
            0 <= k < pawns.len() ==> -COORD_LIMIT + 9 <= (#[trigger] pawns[k]).1 <= COORD_LIMIT,
    ensures
        mg_pawn(mirrored_pawns(pawns), i) == mg_pawn(pawns, i),
        eg_pawn(mirrored_pawns(pawns), i) == eg_pawn(pawns, i),
{
    let t = mirrored_pawns(pawns);
    assert forall|k: int| 0 <= k < pawns.len() implies #[trigger] t[k] == mirrored_pawn(
        pawns[k],
    ) by {}
    assert(t.len() == pawns.len());
    assert(isolated(t, i) == isolated(pawns, i)) by {
        if isolated(pawns, i) {
            assert forall|j: int| 0 <= j < t.len() && (#[trigger] t[j]).2 == t[i].2 implies abs(
                clamp(t[j].0 - 1, 0, 7) - clamp(t[i].0 - 1, 0, 7),
            ) != 1 by {
                assert(pawns[j].2 == pawns[i].2);
            }
        }
        if isolated(t, i) {
            assert forall|j: int|
                0 <= j < pawns.len() && (#[trigger] pawns[j]).2 == pawns[i].2 implies abs(
                clamp(pawns[j].0 - 1, 0, 7) - clamp(pawns[i].0 - 1, 0, 7),
            ) != 1 by {
                assert(t[j].2 == t[i].2);
            }
        }
    }
    assert(doubled(t, i) == doubled(pawns, i)) by {
        if doubled(pawns, i) {
            let j = choose|j: int|
                0 <= j < pawns.len() && j != i && (#[trigger] pawns[j]).2 == pawns[i].2
                    && pawns[j].0 == pawns[i].0;
            assert(t[j].2 == t[i].2);
        }
        if doubled(t, i) {
            let j = choose|j: int|
                0 <= j < t.len() && j != i && (#[trigger] t[j]).2 == t[i].2 && t[j].0 == t[i].0;
            assert(pawns[j].2 == pawns[i].2);
        }
    }
    assert(passed(t, i) == passed(pawns, i)) by {
        if passed(pawns, i) {
            assert forall|j: int|
                0 <= j < t.len() && (#[trigger] t[j]).2 != t[i].2 && abs(t[j].0 - t[i].0)
                    <= 1 implies if t[i].2 {
                t[j].1 <= t[i].1
            } else {
                t[j].1 >= t[i].1
            } by {
                assert(pawns[j].2 != pawns[i].2);
            }
        }
        if passed(t, i) {
            assert forall|j: int|
                0 <= j < pawns.len() && (#[trigger] pawns[j]).2 != pawns[i].2 && abs(
                    pawns[j].0 - pawns[i].0,
                ) <= 1 implies if pawns[i].2 {
                pawns[j].1 <= pawns[i].1
            } else {
                pawns[j].1 >= pawns[i].1
            } by {
                assert(t[j].2 != t[i].2);
            }
        }
    }
    assert(own_rank(t[i]) == own_rank(pawns[i]));
}

proof fn lemma_pawn_scores(pawns: Seq<(i64, i64, bool)>, white: bool, n: nat)
    requires
        n <= pawns.len(),
        forall|k: int|
            0 <= k < pawns.len() ==> -COORD_LIMIT + 9 <= (#[trigger] pawns[k]).1 <= COORD_LIMIT,
    ensures
        mg_pawns(mirrored_pawns(pawns), !white, n) == mg_pawns(pawns, white, n),
        eg_pawns(mirrored_pawns(pawns), !white, n) == eg_pawns(pawns, white, n),
    decreases n,
{
    if n > 0 {
        lemma_pawn_scores(pawns, white, (n - 1) as nat);
        lemma_pawn_score(pawns, n - 1);
        assert(mirrored_pawns(pawns)[n - 1] == mirrored_pawn(pawns[n - 1]));
    }
}

/// A piece counts for its side as its mirror image does for the other.
proof fn lemma_terms(
    s: Seq<(i64, i64, Piece)>,
    p: (i64, i64, Piece),
    white: bool,
    king: Coordinate,
    mirror_king: Coordinate,
)
    requires
        two_sided(s),
        two_sided(mirrored_board(s)),
        !(p.2.color is Neutral),
        -COORD_LIMIT + 9 <= p.1 <= COORD_LIMIT,
        mirror_king.x == king.x,
        mirror_king.y == 9 - king.y,
    ensures
        mg_term(mirrored_board(s), !white)(mirrored(p)) == mg_term(s, white)(p),
        eg_term(mirrored_board(s), !white)(mirrored(p)) == eg_term(s, white)(p),
        attacker_term(white, mirror_king)(mirrored(p)) == attacker_term(!white, king)(p),
        attack_weight_term(white, mirror_king)(mirrored(p)) == attack_weight_term(!white, king)(
            p,
        ),
{
    lemma_mobility(s, p);
    tables_flip_with_the_side(p.0 as int, p.1 as int, white);
    assert(of_side(mirrored(p).2, !white) == of_side(p.2, white));
    assert(of_side(mirrored(p).2, white) == of_side(p.2, !white));
    assert(mirrored(p).1 == 9 - p.1);
    assert(attacks_king(mirrored(p), mirror_king) == attacks_king(p, king));
}

proof fn lemma_side_scores(a: GameState, b: GameState, white: bool)
    requires
        mirrors(a, b),
        two_sided(a.board@),
        forall|i: int| 0 <= i < a.board@.len() ==> -COORD_LIMIT + 9 <= (#[trigger] a.board@[i]).1,
        a.white_king_pos matches Some(k) ==> -COORD_LIMIT + 9 <= k.y <= COORD_LIMIT,
        a.black_king_pos matches Some(k) ==> -COORD_LIMIT + 9 <= k.y <= COORD_LIMIT,
    ensures
        mg_score(b, !white) == mg_score(a, white),
        eg_score(b, !white) == eg_score(a, white),
{
    let s = a.board@;
    let t = b.board@;
    lemma_mirrored_two_sided(s);
    let king = if white {
        king_square(a.white_king_pos, true)
    } else {
        king_square(a.black_king_pos, false)
    };
    let mirror_king = if !white {
        king_square(b.white_king_pos, true)
    } else {
        king_square(b.black_king_pos, false)
    };
    assert(mirror_king.x == king.x && mirror_king.y == 9 - king.y);
    assert forall|i: int| 0 <= i < s.len() implies mg_term(t, !white)(mirrored(#[trigger] s[i]))
        == mg_term(s, white)(s[i]) by {
        lemma_terms(s, s[i], white, king, mirror_king);
    }
    lemma_mirrored_sum(s, mg_term(t, !white), mg_term(s, white));
    assert forall|i: int| 0 <= i < s.len() implies eg_term(t, !white)(mirrored(#[trigger] s[i]))
        == eg_term(s, white)(s[i]) by {
        lemma_terms(s, s[i], white, king, mirror_king);
    }
    lemma_mirrored_sum(s, eg_term(t, !white), eg_term(s, white));
    assert forall|i: int| 0 <= i < s.len() implies attacker_term(white, mirror_king)(
        mirrored(#[trigger] s[i]),
    ) == attacker_term(!white, king)(s[i]) by {
        lemma_terms(s, s[i], white, king, mirror_king);
    }
    lemma_mirrored_sum(s, attacker_term(white, mirror_king), attacker_term(!white, king));
    assert forall|i: int| 0 <= i < s.len() implies attack_weight_term(white, mirror_king)(
        mirrored(#[trigger] s[i]),
    ) == attack_weight_term(!white, king)(s[i]) by {
        lemma_terms(s, s[i], white, king, mirror_king);
    }
    lemma_mirrored_sum(s, attack_weight_term(white, mirror_king), attack_weight_term(!white, king));
    assert forall|i: int| 0 <= i < s.len() implies -COORD_LIMIT + 9 <= (#[trigger] s[i]).1
        <= COORD_LIMIT by {
        assert(in_range(s[i].0 as int, s[i].1 as int));
    }
    lemma_pawn_entries(s);
    lemma_pawns_from(s, -COORD_LIMIT + 9, COORD_LIMIT as int);
    lemma_pawn_scores(pawn_entries(s), white, pawn_entries(s).len());
}

/// A position and its mirror image with colors exchanged have the same score
/// for the side to move, as far as the mirror image is in range too and no
/// piece is neutral.
pub proof fn evaluation_is_color_blind(a: GameState, b: GameState)
    requires
        chess_evaluable(a),
        chess_evaluable(b),
        mirrors(a, b),
        !(a.turn is Neutral),
        forall|i: int| 0 <= i < a.board@.len() ==> !((#[trigger] a.board@[i]).2.color is Neutral),
    ensures
        chess_score(b) == chess_score(a),
{
    let s = a.board@;
    assert forall|i: int| 0 <= i < s.len() implies -COORD_LIMIT + 9 <= (#[trigger] s[i]).1 by {
        assert(b.board@[i] == mirrored(s[i]));
        assert(in_range(b.board@[i].0 as int, b.board@[i].1 as int));
        assert(in_range(s[i].0 as int, s[i].1 as int));
    }
    assert forall|i: int| 0 <= i < s.len() implies !((#[trigger] s[i]).2.color is Neutral)
        && in_range(s[i].0 as int, s[i].1 as int) by {}
    assert forall|i: int, j: int| 0 <= i < j < s.len() implies (#[trigger] s[i]).0 != (
    #[trigger] s[j]).0 || s[i].1 != s[j].1 by {
        assert(a.board.wf());
    }
    lemma_side_scores(a, b, true);
    lemma_side_scores(a, b, false);
    assert forall|i: int| 0 <= i < s.len() implies chess_phase_term()(mirrored(#[trigger] s[i]))
        == chess_phase_term()(s[i]) by {}
    lemma_mirrored_sum(s, chess_phase_term(), chess_phase_term());
}

} // verus!
