//! The evaluation of a chess position does not depend on the order in which
//! the board lists its pieces.
use crate::arith::{abs, clamp, lemma_sum_step, sum_of};
use crate::board::{piece_at, Piece, PlayerColor};
use crate::evaluation::order::{
    lemma_found, lemma_square_relisted, lemma_sum_relisted, relisted, same_position,
};
use crate::evaluation::values::is_white;
use crate::evaluation::variants::chess::{
    along, attack_weight_term, attacker_term, chess_phase_term, chess_score, doubled, eg_pawn,
    eg_pawns, eg_score, eg_term, isolated, king_square, mg_pawn, mg_pawns, mg_score, mg_term,
    mobility, on_chess_board, passed, pawn_entries, reach, steps_left,
};
use crate::game::GameState;
use vstd::prelude::*;

verus! {

/// Moves along a direction are the same in two listings.
proof fn lemma_reach_relisted(
    s: Seq<(i64, i64, Piece)>,
    t: Seq<(i64, i64, Piece)>,
    x: int,
    y: int,
    dx: int,
    dy: int,
    color: PlayerColor,
    sliding: bool,
)
    requires
        forall|x: int, y: int| #[trigger] piece_at(s, x, y) == piece_at(t, x, y),
    ensures
        reach(s, x, y, dx, dy, color, sliding) == reach(t, x, y, dx, dy, color, sliding),
    decreases steps_left(x, y, dx, dy),
{
    assert(piece_at(s, x, y) == piece_at(t, x, y));
    if on_chess_board(x, y) && piece_at(s, x, y) is None && (dx != 0 || dy != 0) {
        lemma_reach_relisted(s, t, x + dx, y + dy, dx, dy, color, sliding);
    }
}

/// One for a pawn with the given entry.
spec fn entered_as(entry: (i64, i64, bool)) -> spec_fn((i64, i64, Piece)) -> int {
    |p: (i64, i64, Piece)|
        if p.2.piece_type is Pawn && (p.0, p.1, is_white(p.2)) == entry {
            1
        } else {
            0
        }
}

proof fn lemma_entry_count(s: Seq<(i64, i64, Piece)>, entry: (i64, i64, bool))
    ensures
        pawn_entries(s).to_multiset().count(entry) == sum_of(s, entered_as(entry)),
    decreases s.len(),
{
    broadcast use vstd::seq_lib::group_to_multiset_ensures;
    broadcast use vstd::multiset::group_multiset_axioms;

    if s.len() == 0 {
        assert(!pawn_entries(s).contains(entry));
    } else {
        lemma_entry_count(s.drop_last(), entry);
    }
}

proof fn lemma_entries_relisted(s: Seq<(i64, i64, Piece)>, t: Seq<(i64, i64, Piece)>)
    requires
        relisted(s, t),
    ensures
        relisted(pawn_entries(s), pawn_entries(t)),
{
    let a = pawn_entries(s);
    let b = pawn_entries(t);
    assert forall|q: (i64, i64, bool)| #[trigger]
        a.to_multiset().count(q) == b.to_multiset().count(q) by {
        lemma_entry_count(s, q);
        lemma_entry_count(t, q);
        lemma_sum_relisted(s, t, entered_as(q));
    }
    assert(a.to_multiset() =~= b.to_multiset());
}

/// No two entries have the same square.
spec fn squares_differ(pawns: Seq<(i64, i64, bool)>) -> bool {
    forall|i: int, j: int|
        0 <= i < j < pawns.len() ==> (#[trigger] pawns[i]).0 != (#[trigger] pawns[j]).0
            || pawns[i].1 != pawns[j].1
}

proof fn lemma_entries_differ(s: Seq<(i64, i64, Piece)>)
    requires
        forall|i: int, j: int|
            0 <= i < j < s.len() ==> (#[trigger] s[i]).0 != (#[trigger] s[j]).0 || s[i].1
                != s[j].1,
    ensures
        squares_differ(pawn_entries(s)),
        forall|i: int|
            0 <= i < pawn_entries(s).len() ==> exists|k: int|
                0 <= k < s.len() && (#[trigger] s[k]).0 == (#[trigger] pawn_entries(s)[i]).0
                    && s[k].1 == pawn_entries(s)[i].1,
    decreases s.len(),
{
    if s.len() > 0 {
        let r = s.drop_last();
        lemma_entries_differ(r);
        let n = s.len() - 1;
        let pawns = pawn_entries(s);
        assert forall|i: int| 0 <= i < pawns.len() implies exists|k: int|
            0 <= k < s.len() && (#[trigger] s[k]).0 == (#[trigger] pawns[i]).0 && s[k].1
                == pawns[i].1 by {
            if i < pawn_entries(r).len() {
                assert(pawns[i] == pawn_entries(r)[i]);
                let k = choose|k: int|
                    0 <= k < r.len() && (#[trigger] r[k]).0 == pawn_entries(r)[i].0 && r[k].1
                        == pawn_entries(r)[i].1;
                assert(s[k] == r[k]);
            } else {
                assert(s[n].0 == pawns[i].0);
            }
        }
        assert forall|i: int, j: int| 0 <= i < j < pawns.len() implies (#[trigger] pawns[i]).0 != (
        #[trigger] pawns[j]).0 || pawns[i].1 != pawns[j].1 by {
            assert(pawns[i] == pawn_entries(r)[i]);
            let k = choose|k: int|
                0 <= k < r.len() && (#[trigger] r[k]).0 == pawn_entries(r)[i].0 && r[k].1
                    == pawn_entries(r)[i].1;
            assert(s[k] == r[k]);
            if j < pawn_entries(r).len() {
                assert(pawns[j] == pawn_entries(r)[j]);
            } else {
                assert(s[n].0 == pawns[j].0 && s[n].1 == pawns[j].1);
            }
        }
    }
}

/// What holds of a pawn among the others is the same in two listings.
proof fn lemma_pawn_relisted(
    a: Seq<(i64, i64, bool)>,
    b: Seq<(i64, i64, bool)>,
    i: int,
    j: int,
)
    requires
        relisted(a, b),
        squares_differ(a),
        squares_differ(b),
        0 <= i < a.len(),
        0 <= j < b.len(),
        a[i] == b[j],
    ensures
        isolated(a, i) ==> isolated(b, j),
        doubled(a, i) ==> doubled(b, j),
        passed(a, i) ==> passed(b, j),
{
    if isolated(a, i) {
        assert forall|k: int| 0 <= k < b.len() && (#[trigger] b[k]).2 == b[j].2 implies abs(
            clamp(b[k].0 - 1, 0, 7) - clamp(b[j].0 - 1, 0, 7),
        ) != 1 by {
            let m = lemma_found(b, a, k);
        }
    }
    if doubled(a, i) {
        let m = choose|m: int|
            0 <= m < a.len() && m != i && (#[trigger] a[m]).2 == a[i].2 && a[m].0 == a[i].0;
        let k = lemma_found(a, b, m);
        assert(a[m].1 != a[i].1);
        assert(k != j);
    }
    if passed(a, i) {
        assert forall|k: int|
            0 <= k < b.len() && (#[trigger] b[k]).2 != b[j].2 && abs(b[k].0 - b[j].0)
                <= 1 implies if b[j].2 {
            b[k].1 <= b[j].1
        } else {
            b[k].1 >= b[j].1
        } by {
            let m = lemma_found(b, a, k);
        }
    }
}

/// The place of a pawn among the entries.
spec fn place(pawns: Seq<(i64, i64, bool)>, p: (i64, i64, bool)) -> int {
    choose|i: int| 0 <= i < pawns.len() && pawns[i] == p
}

/// The middlegame score of a side's pawn among the entries.
spec fn mg_entry(pawns: Seq<(i64, i64, bool)>, white: bool) -> spec_fn((i64, i64, bool)) -> int {
    |p: (i64, i64, bool)|
        if p.2 == white {
            mg_pawn(pawns, place(pawns, p))
        } else {
            0
        }
}

/// The endgame score of a side's pawn among the entries.
spec fn eg_entry(pawns: Seq<(i64, i64, bool)>, white: bool) -> spec_fn((i64, i64, bool)) -> int {
    |p: (i64, i64, bool)|
        if p.2 == white {
            eg_pawn(pawns, place(pawns, p))
        } else {
            0
        }
}

proof fn lemma_pawn_sums(
    a: Seq<(i64, i64, bool)>,
    b: Seq<(i64, i64, bool)>,
    white: bool,
    n: nat,
)
    requires
        relisted(a, b),
        squares_differ(a),
        squares_differ(b),
        n <= b.len(),
    ensures
        mg_pawns(b, white, n) == sum_of(b.take(n as int), mg_entry(a, white)),
        eg_pawns(b, white, n) == sum_of(b.take(n as int), eg_entry(a, white)),
    decreases n,
{
    if n > 0 {
        let j = n - 1;
        lemma_pawn_sums(a, b, white, j as nat);
        lemma_sum_step(b, j, mg_entry(a, white));
        lemma_sum_step(b, j, eg_entry(a, white));
        let m = lemma_found(b, a, j);
        let i = place(a, b[j]);
        assert(0 <= i < a.len() && a[i] == b[j]);
        lemma_pawn_relisted(a, b, i, j);
        lemma_pawn_relisted(b, a, j, i);
    }
}

/// The pawns score the same in two listings.
proof fn lemma_pawns_relisted(
    a: Seq<(i64, i64, bool)>,
    b: Seq<(i64, i64, bool)>,
    white: bool,
)
    requires
        relisted(a, b),
        squares_differ(a),
        squares_differ(b),
    ensures
        mg_pawns(a, white, a.len()) == mg_pawns(b, white, b.len()),
        eg_pawns(a, white, a.len()) == eg_pawns(b, white, b.len()),
{
    lemma_pawn_sums(a, a, white, a.len());
    lemma_pawn_sums(a, b, white, b.len());
    assert(a.take(a.len() as int) =~= a);
    assert(b.take(b.len() as int) =~= b);
    lemma_sum_relisted(a, b, mg_entry(a, white));
    lemma_sum_relisted(a, b, eg_entry(a, white));
}

/// The order in which a board lists its pieces does not matter to the score of
/// a chess position.
pub proof fn chess_evaluation_ignores_the_listing(a: GameState, b: GameState)
    requires
        same_position(a, b),
        a.board.wf(),
        b.board.wf(),
    ensures
        chess_score(a) == chess_score(b),
{
    let s = a.board@;
    let t = b.board@;
    assert forall|x: int, y: int| #[trigger] piece_at(s, x, y) == piece_at(t, x, y) by {
        lemma_square_relisted(a.board, b.board, x, y);
    }
    lemma_entries_relisted(s, t);
    lemma_entries_differ(s);
    lemma_entries_differ(t);
    assert forall|p: (i64, i64, Piece)| #[trigger] mobility(s, p) == mobility(t, p) by {
        assert forall|dx: int, dy: int| #[trigger] along(s, p, dx, dy) == along(t, p, dx, dy) by {
            lemma_reach_relisted(
                s,
                t,
                p.0 + dx,
                p.1 + dy,
                dx,
                dy,
                p.2.color,
                !(p.2.piece_type is Knight),
            );
        }
    }
    assert forall|white: bool| #[trigger] mg_score(a, white) == mg_score(b, white) && eg_score(
        a,
        white,
    ) == eg_score(b, white) by {
        lemma_pawns_relisted(pawn_entries(s), pawn_entries(t), white);
        let king = if white {
            king_square(a.white_king_pos, true)
        } else {
            king_square(a.black_king_pos, false)
        };
        assert(mg_term(s, white) =~= mg_term(t, white));
        assert(eg_term(s, white) =~= eg_term(t, white));
        lemma_sum_relisted(s, t, mg_term(s, white));
        lemma_sum_relisted(s, t, eg_term(s, white));
        lemma_sum_relisted(s, t, attacker_term(!white, king));
        lemma_sum_relisted(s, t, attack_weight_term(!white, king));
    }
    lemma_sum_relisted(s, t, chess_phase_term());
}

} // verus!
