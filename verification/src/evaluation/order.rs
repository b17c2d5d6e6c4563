//! A board lists its pieces in some order. The evaluation of a position does
//! not depend on it.
use crate::arith::{cheb, sum_of};
use crate::board::{occupied, piece_at, Board, Coordinate, Piece};
use crate::evaluation::base::{
    advancement, black_pawns, cache_after, counted, counted_black_side, counted_white_side,
    evaluation, evaluation_rows, features_after, global_tropism, inner_score, king_attack,
    king_rows, king_safety_metrics, piece_metrics, setting, shelter, threat_rows, threat_score,
    white_pawns, EndgameTerms,
};
use crate::evaluation::buffers::{lemma_square_order_total, square_order};
use crate::evaluation::features::EvalFeatures;
use crate::evaluation::king_safety::KingRay;
use crate::evaluation::metrics::{
    active_among, active_pieces, empty_ray, has_bishop_on, has_queen, in_active_tile, king_ray,
    king_rays, minor_threat_term, officers, pawn_threat_term, ray_of, ring_covered, same_tile,
};
use crate::evaluation::pawn_cache::PawnCacheBucket;
use crate::evaluation::pawns::{
    live_pawn, live_pawns, pawn_rows, pawn_structure, sorted_pawns, PawnSide,
};
use crate::evaluation::pieces::{pieces_rows, pieces_score};
use crate::evaluation::values::piece_value;
use crate::game::GameState;
use vstd::prelude::*;

verus! {

/// Two lists hold the same elements equally often.
pub open spec fn relisted<A>(s: Seq<A>, t: Seq<A>) -> bool {
    s.to_multiset() == t.to_multiset()
}

proof fn lemma_sum_remove<A>(s: Seq<A>, i: int, f: spec_fn(A) -> int)
    requires
        0 <= i < s.len(),
    ensures
        sum_of(s, f) == sum_of(s.remove(i), f) + f(s[i]),
    decreases s.len(),
{
    let rest = s.remove(i);
    if i == s.len() - 1 {
        assert(rest =~= s.drop_last());
    } else {
        lemma_sum_remove(s.drop_last(), i, f);
        assert(rest.drop_last() =~= s.drop_last().remove(i));
        assert(rest.last() == s.last());
    }
}

/// An element of one list is found in the other.
pub proof fn lemma_found<A>(s: Seq<A>, t: Seq<A>, i: int) -> (j: int)
    requires
        relisted(s, t),
        0 <= i < s.len(),
    ensures
        0 <= j < t.len(),
        t[j] == s[i],
{
    broadcast use vstd::seq_lib::group_to_multiset_ensures;

    assert(s.contains(s[i]));
    assert(s.to_multiset().count(s[i]) > 0);
    assert(t.to_multiset().count(s[i]) > 0);
    assert(t.contains(s[i]));
    choose|j: int| 0 <= j < t.len() && t[j] == s[i]
}

/// A sum does not depend on the order of its terms.
pub proof fn lemma_sum_relisted<A>(s: Seq<A>, t: Seq<A>, f: spec_fn(A) -> int)
    requires
        relisted(s, t),
    ensures
        sum_of(s, f) == sum_of(t, f),
    decreases s.len(),
{
    broadcast use vstd::seq_lib::group_to_multiset_ensures;

    assert(s.len() == s.to_multiset().len());
    assert(t.len() == t.to_multiset().len());
    if s.len() > 0 {
        let n = s.len() - 1;
        let j = lemma_found(s, t, n);
        lemma_sum_remove(t, j, f);
        assert(s.remove(n) =~= s.drop_last());
        assert(s.remove(n).to_multiset() == s.to_multiset().remove(s[n]));
        assert(t.remove(j).to_multiset() == t.to_multiset().remove(t[j]));
        lemma_sum_relisted(s.drop_last(), t.remove(j), f);
    }
}

/// The active pieces among the first `n`, as a multiset.
proof fn lemma_active_multiset(s: Seq<(i64, i64, Piece)>, n: nat)
    requires
        n <= s.len(),
    ensures
        active_among(s, n).to_multiset() == s.take(n as int).to_multiset().filter(
            |p: (i64, i64, Piece)| in_active_tile(s, p),
        ),
    decreases n,
{
    broadcast use vstd::seq_lib::group_to_multiset_ensures;
    broadcast use vstd::multiset::group_multiset_axioms;

    let f = |p: (i64, i64, Piece)| in_active_tile(s, p);
    if n == 0 {
        assert(s.take(0) =~= Seq::empty());
        assert(active_among(s, n).to_multiset() =~= s.take(0).to_multiset().filter(f));
    } else {
        let m = (n - 1) as nat;
        lemma_active_multiset(s, m);
        assert(s.take(n as int) =~= s.take(m as int).push(s[n - 1]));
        assert(s.take(n as int).to_multiset() =~= s.take(m as int).to_multiset().insert(s[n - 1]));
        assert(active_among(s, n).to_multiset() =~= s.take(n as int).to_multiset().filter(f));
    }
}

/// Which pieces are active does not depend on the order.
proof fn lemma_active_relisted(s: Seq<(i64, i64, Piece)>, t: Seq<(i64, i64, Piece)>)
    requires
        relisted(s, t),
    ensures
        relisted(active_pieces(s), active_pieces(t)),
{
    broadcast use vstd::seq_lib::group_to_multiset_ensures;

    assert(s.len() == s.to_multiset().len());
    assert(t.len() == t.to_multiset().len());
    lemma_active_multiset(s, s.len());
    lemma_active_multiset(t, t.len());
    assert(s.take(s.len() as int) =~= s);
    assert(t.take(t.len() as int) =~= t);
    let f = |p: (i64, i64, Piece)| in_active_tile(s, p);
    let g = |p: (i64, i64, Piece)| in_active_tile(t, p);
    assert forall|p: (i64, i64, Piece)| #[trigger] f(p) == g(p) by {
        lemma_tile_relisted(s, t, p);
        lemma_tile_relisted(t, s, p);
    }
    assert(f =~= g);
}

proof fn lemma_tile_relisted(
    s: Seq<(i64, i64, Piece)>,
    t: Seq<(i64, i64, Piece)>,
    p: (i64, i64, Piece),
)
    requires
        relisted(s, t),
    ensures
        in_active_tile(s, p) ==> in_active_tile(t, p),
{
    if in_active_tile(s, p) {
        let i = choose|i: int|
            0 <= i < s.len() && same_tile(#[trigger] s[i], p) && !(
            s[i].2.color is Neutral);
        let j = lemma_found(s, t, i);
        assert(same_tile(t[j], p));
    }
}

/// The pieces other than pawns, as a multiset.
proof fn lemma_officers_multiset(s: Seq<(i64, i64, Piece)>)
    ensures
        officers(s).to_multiset() == s.to_multiset().filter(
            |p: (i64, i64, Piece)| !(p.2.piece_type is Pawn),
        ),
    decreases s.len(),
{
    broadcast use vstd::seq_lib::group_to_multiset_ensures;
    broadcast use vstd::multiset::group_multiset_axioms;

    let f = |p: (i64, i64, Piece)| !(p.2.piece_type is Pawn);
    if s.len() == 0 {
        assert(s =~= Seq::empty());
        assert(officers(s).to_multiset() =~= s.to_multiset().filter(f));
    } else {
        lemma_officers_multiset(s.drop_last());
        assert(s =~= s.drop_last().push(s.last()));
        assert(s.to_multiset() =~= s.drop_last().to_multiset().insert(s.last()));
        assert(officers(s).to_multiset() =~= s.to_multiset().filter(f));
    }
}

proof fn lemma_officers_relisted(s: Seq<(i64, i64, Piece)>, t: Seq<(i64, i64, Piece)>)
    requires
        relisted(s, t),
    ensures
        relisted(officers(s), officers(t)),
{
    lemma_officers_multiset(s);
    lemma_officers_multiset(t);
}

/// One for a pawn that can still promote and stands on `square`.
spec fn pawn_on(square: (i64, i64), white: bool, promo: int) -> spec_fn((i64, i64, Piece)) -> int {
    |p: (i64, i64, Piece)|
        if live_pawn(p, white, promo) && (p.0, p.1) == square {
            1
        } else {
            0
        }
}

proof fn lemma_pawn_count(
    s: Seq<(i64, i64, Piece)>,
    white: bool,
    promo: int,
    square: (i64, i64),
)
    ensures
        live_pawns(s, white, promo).to_multiset().count(square) == sum_of(
            s,
            pawn_on(square, white, promo),
        ),
    decreases s.len(),
{
    broadcast use vstd::seq_lib::group_to_multiset_ensures;
    broadcast use vstd::multiset::group_multiset_axioms;

    if s.len() == 0 {
        assert(!live_pawns(s, white, promo).contains(square));
    } else {
        lemma_pawn_count(s.drop_last(), white, promo, square);
    }
}

/// The pawns of a side, in order, do not depend on the order of the pieces.
proof fn lemma_pawns_relisted(
    s: Seq<(i64, i64, Piece)>,
    t: Seq<(i64, i64, Piece)>,
    white: bool,
    promo: int,
)
    requires
        relisted(s, t),
    ensures
        sorted_pawns(s, white, promo) == sorted_pawns(t, white, promo),
{
    let a = live_pawns(s, white, promo);
    let b = live_pawns(t, white, promo);
    assert forall|q: (i64, i64)| #[trigger]
        a.to_multiset().count(q) == b.to_multiset().count(q) by {
        lemma_pawn_count(s, white, promo, q);
        lemma_pawn_count(t, white, promo, q);
        lemma_sum_relisted(s, t, pawn_on(q, white, promo));
    }
    assert(a.to_multiset() =~= b.to_multiset());
    lemma_square_order_total();
    a.lemma_sort_by_ensures(square_order());
    b.lemma_sort_by_ensures(square_order());
    vstd::seq_lib::lemma_sorted_unique(
        a.sort_by(square_order()),
        b.sort_by(square_order()),
        square_order(),
    );
}

proof fn lemma_presence_relisted(
    s: Seq<(i64, i64, Piece)>,
    t: Seq<(i64, i64, Piece)>,
    king: Option<Coordinate>,
    white: bool,
    even: bool,
)
    requires
        relisted(s, t),
    ensures
        has_queen(s, white) ==> has_queen(t, white),
        has_bishop_on(s, white, even) ==> has_bishop_on(t, white, even),
        ring_covered(s, king, white) ==> ring_covered(t, king, white),
{
    assert forall|i: int| 0 <= i < s.len() implies t.contains(#[trigger] s[i]) by {
        let j = lemma_found(s, t, i);
    }
}

/// What a ray shows of a piece.
pub open spec fn shown(p: (i64, i64, Piece), king: Coordinate) -> KingRay {
    (
        cheb(p.0 as int, p.1 as int, king.x as int, king.y as int) as i32,
        piece_value(p.2.piece_type) as i32,
        p.2.color,
        p.2.piece_type,
    )
}

/// A ray shows a piece on it than which none is nearer.
proof fn lemma_ray_shows(s: Seq<(i64, i64, Piece)>, king: Coordinate, i: int)
    ensures
        forall|k: int|
            0 <= k < s.len() && ray_of((#[trigger] s[k]).0 - king.x, s[k].1 - king.y) == Some(i)
                ==> king_ray(s, king, i).0 <= shown(s[k], king).0,
        king_ray(s, king, i) == empty_ray() || exists|k: int|
            0 <= k < s.len() && ray_of((#[trigger] s[k]).0 - king.x, s[k].1 - king.y) == Some(i)
                && king_ray(s, king, i) == shown(s[k], king) && shown(s[k], king).0 < i32::MAX,
    decreases s.len(),
{
    if s.len() > 0 {
        let t = s.drop_last();
        lemma_ray_shows(t, king, i);
        let n = s.len() - 1;
        assert(s[n] == s.last());
        assert forall|k: int|
            0 <= k < s.len() && ray_of((#[trigger] s[k]).0 - king.x, s[k].1 - king.y) == Some(
                i,
            ) implies king_ray(s, king, i).0 <= shown(s[k], king).0 by {
            if k < n {
                assert(t[k] == s[k]);
            }
        }
        if king_ray(s, king, i) != empty_ray() && king_ray(s, king, i) == king_ray(t, king, i) {
            let k = choose|k: int|
                0 <= k < t.len() && ray_of((#[trigger] t[k]).0 - king.x, t[k].1 - king.y) == Some(
                    i,
                ) && king_ray(t, king, i) == shown(t[k], king) && shown(t[k], king).0 < i32::MAX;
            assert(s[k] == t[k]);
        }
    }
}

/// The pieces that a ray from a king could show, because no piece on the ray is
/// nearer, look alike. Only pieces so far apart that their distances, taken as
/// 32-bit numbers, coincide can fail this.
pub open spec fn nearest_alike(s: Seq<(i64, i64, Piece)>, king: Option<Coordinate>) -> bool {
    king matches Some(k) ==> forall|i: int, ray: int|
        0 <= i < s.len() && ray_of((#[trigger] s[i]).0 - k.x, s[i].1 - k.y) == Some(ray)
            && shown(s[i], k).0 == (#[trigger] king_ray(s, k, ray)).0 && shown(s[i], k).0
            < i32::MAX ==> shown(s[i], k) == king_ray(s, k, ray)
}

proof fn lemma_ray_relisted(
    s: Seq<(i64, i64, Piece)>,
    t: Seq<(i64, i64, Piece)>,
    king: Coordinate,
    ray: int,
)
    requires
        relisted(s, t),
        nearest_alike(s, Some(king)),
    ensures
        king_ray(s, king, ray) == king_ray(t, king, ray),
{
    lemma_ray_shows(s, king, ray);
    lemma_ray_shows(t, king, ray);
    let a = king_ray(s, king, ray);
    let b = king_ray(t, king, ray);
    if a != empty_ray() {
        let i = choose|i: int|
            0 <= i < s.len() && ray_of((#[trigger] s[i]).0 - king.x, s[i].1 - king.y) == Some(ray)
                && a == shown(s[i], king) && shown(s[i], king).0 < i32::MAX;
        let j = lemma_found(s, t, i);
        assert(b.0 <= shown(t[j], king).0);
    }
    if b != empty_ray() {
        let j = choose|j: int|
            0 <= j < t.len() && ray_of((#[trigger] t[j]).0 - king.x, t[j].1 - king.y) == Some(ray)
                && b == shown(t[j], king) && shown(t[j], king).0 < i32::MAX;
        let i = lemma_found(t, s, j);
        assert(a.0 <= shown(s[i], king).0);
    }
}

proof fn lemma_rays_relisted(
    s: Seq<(i64, i64, Piece)>,
    t: Seq<(i64, i64, Piece)>,
    king: Option<Coordinate>,
)
    requires
        relisted(s, t),
        nearest_alike(s, king),
    ensures
        king_rays(s, king) == king_rays(t, king),
{
    if let Some(k) = king {
        assert forall|i: int| #[trigger] king_ray(s, k, i) == king_ray(t, k, i) by {
            lemma_ray_relisted(s, t, k, i);
        }
    }
    assert(king_rays(s, king) =~= king_rays(t, king));
}

/// An active piece is one of the pieces.
proof fn lemma_active_found(s: Seq<(i64, i64, Piece)>, i: int) -> (j: int)
    requires
        0 <= i < active_pieces(s).len(),
    ensures
        0 <= j < s.len(),
        s[j] == active_pieces(s)[i],
{
    broadcast use vstd::seq_lib::group_to_multiset_ensures;
    broadcast use vstd::multiset::group_multiset_axioms;

    lemma_active_multiset(s, s.len());
    assert(s.take(s.len() as int) =~= s);
    let p = active_pieces(s)[i];
    assert(active_pieces(s).contains(p));
    assert(active_pieces(s).to_multiset().count(p) > 0);
    assert(s.to_multiset().count(p) > 0);
    assert(s.contains(p));
    choose|j: int| 0 <= j < s.len() && s[j] == p
}

/// On a board whose pieces are all within the reach of 32-bit distances from a
/// king, the counted pieces never tie on one of its rays.
pub proof fn near_pieces_never_tie(game: GameState, king: Coordinate)
    requires
        game.board.wf(),
        forall|i: int|
            0 <= i < game.board@.len() ==> cheb(
                (#[trigger] game.board@[i]).0 as int,
                game.board@[i].1 as int,
                king.x as int,
                king.y as int,
            ) < i32::MAX,
    ensures
        nearest_alike(counted(game), Some(king)),
{
    let s = counted(game);
    assert forall|i: int, ray: int|
        0 <= i < s.len() && ray_of((#[trigger] s[i]).0 - king.x, s[i].1 - king.y) == Some(ray)
            && shown(s[i], king).0 == (#[trigger] king_ray(s, king, ray)).0 && shown(
            s[i],
            king,
        ).0 < i32::MAX implies shown(s[i], king) == king_ray(s, king, ray) by {
        lemma_ray_shows(s, king, ray);
        let k = choose|k: int|
            0 <= k < s.len() && ray_of((#[trigger] s[k]).0 - king.x, s[k].1 - king.y) == Some(ray)
                && king_ray(s, king, ray) == shown(s[k], king) && shown(s[k], king).0 < i32::MAX;
        let i1 = lemma_active_found(game.board@, i);
        let k1 = lemma_active_found(game.board@, k);
        assert(game.board@[i1].0 == game.board@[k1].0 && game.board@[i1].1 == game.board@[k1].1);
        assert(i1 == k1);
    }
}

/// What stands on a square does not depend on the order.
pub proof fn lemma_square_relisted(a: Board, b: Board, x: int, y: int)
    requires
        a.wf(),
        b.wf(),
        relisted(a@, b@),
    ensures
        occupied(a@, x, y) == occupied(b@, x, y),
        piece_at(a@, x, y) == piece_at(b@, x, y),
{
    let s = a@;
    let t = b@;
    if occupied(s, x, y) {
        let i = choose|i: int| 0 <= i < s.len() && (#[trigger] s[i]).0 == x && s[i].1 == y;
        let j = lemma_found(s, t, i);
        let k = choose|k: int| 0 <= k < t.len() && (#[trigger] t[k]).0 == x && t[k].1 == y;
        assert(t[j].0 == t[k].0 && t[j].1 == t[k].1);
        assert(j == k);
    }
    if occupied(t, x, y) {
        let i = choose|i: int| 0 <= i < t.len() && (#[trigger] t[i]).0 == x && t[i].1 == y;
        let j = lemma_found(t, s, i);
    }
}

/// Two games that differ at most in the order in which their boards list the
/// pieces.
pub open spec fn same_position(a: GameState, b: GameState) -> bool {
    &&& relisted(a.board@, b.board@)
    &&& b == (GameState { board: b.board, ..a })
}

proof fn lemma_side_relisted(v: PawnSide, w: PawnSide)
    requires
        w == (PawnSide { pieces: w.pieces, ..v }),
        forall|x: int, y: int| #[trigger]
            occupied(v.pieces, x, y) == occupied(w.pieces, x, y),
    ensures
        v.score() == w.score(),
        v.doubled_score() == w.doubled_score(),
        sum_of(v.own, v.passed_term()) == sum_of(w.own, w.passed_term()),
        sum_of(v.own, v.candidate_term()) == sum_of(w.own, w.candidate_term()),
        sum_of(v.own, v.connected_term()) == sum_of(w.own, w.connected_term()),
        sum_of(v.own, v.isolated_term()) == sum_of(w.own, w.isolated_term()),
        sum_of(v.own, v.backward_term()) == sum_of(w.own, w.backward_term()),
{
    assert(v.passed_term() =~= w.passed_term());
    assert(v.candidate_term() =~= w.candidate_term());
    assert(v.connected_term() =~= w.connected_term());
    assert(v.isolated_term() =~= w.isolated_term());
    assert(v.backward_term() =~= w.backward_term());
}

/// What is read off the counted pieces is the same in two listings.
proof fn lemma_counted_relisted(a: GameState, b: GameState)
    requires
        same_position(a, b),
        a.board.wf(),
        b.board.wf(),
        nearest_alike(counted(a), a.white_king_pos),
        nearest_alike(counted(a), a.black_king_pos),
    ensures
        forall|f: spec_fn((i64, i64, Piece)) -> int| #[trigger]
            sum_of(counted(a), f) == sum_of(counted(b), f),
        forall|f: spec_fn((i64, i64, Piece)) -> int| #[trigger]
            sum_of(officers(counted(a)), f) == sum_of(officers(counted(b)), f),
        white_pawns(a) == white_pawns(b),
        black_pawns(a) == black_pawns(b),
        king_rays(counted(a), a.white_king_pos) == king_rays(counted(b), b.white_king_pos),
        king_rays(counted(a), a.black_king_pos) == king_rays(counted(b), b.black_king_pos),
        king_safety_metrics(a) == king_safety_metrics(b),
        piece_metrics(a) == piece_metrics(b),
        forall|k: Option<Coordinate>, white: bool| #[trigger]
            ring_covered(counted(a), k, white) == ring_covered(counted(b), k, white),
{
    let s = counted(a);
    let t = counted(b);
    lemma_active_relisted(a.board@, b.board@);
    lemma_officers_relisted(s, t);
    assert forall|f: spec_fn((i64, i64, Piece)) -> int| #[trigger]
        sum_of(s, f) == sum_of(t, f) by {
        lemma_sum_relisted(s, t, f);
    }
    assert forall|f: spec_fn((i64, i64, Piece)) -> int| #[trigger]
        sum_of(officers(s), f) == sum_of(officers(t), f) by {
        lemma_sum_relisted(officers(s), officers(t), f);
    }
    lemma_pawns_relisted(s, t, true, a.white_promo_rank as int);
    lemma_pawns_relisted(s, t, false, a.black_promo_rank as int);
    lemma_rays_relisted(s, t, a.white_king_pos);
    lemma_rays_relisted(s, t, a.black_king_pos);
    assert forall|white: bool| #[trigger] has_queen(s, white) == has_queen(t, white) by {
        lemma_presence_relisted(s, t, None, white, true);
        lemma_presence_relisted(t, s, None, white, true);
    }
    assert forall|white: bool, even: bool| #[trigger]
        has_bishop_on(s, white, even) == has_bishop_on(t, white, even) by {
        lemma_presence_relisted(s, t, None, white, even);
        lemma_presence_relisted(t, s, None, white, even);
    }
    assert forall|k: Option<Coordinate>, white: bool| #[trigger]
        ring_covered(s, k, white) == ring_covered(t, k, white) by {
        lemma_presence_relisted(s, t, k, white, true);
        lemma_presence_relisted(t, s, k, white, true);
    }
}

/// Activity is the same in two listings.
proof fn lemma_activity_relisted(a: GameState, b: GameState)
    requires
        same_position(a, b),
        a.board.wf(),
        b.board.wf(),
        nearest_alike(counted(a), a.white_king_pos),
        nearest_alike(counted(a), a.black_king_pos),
    ensures
        pieces_score(setting(a), piece_metrics(a), officers(counted(a))) == pieces_score(
            setting(b),
            piece_metrics(b),
            officers(counted(b)),
        ),
        pieces_rows(setting(a), piece_metrics(a), officers(counted(a))) == pieces_rows(
            setting(b),
            piece_metrics(b),
            officers(counted(b)),
        ),
{
    lemma_counted_relisted(a, b);
    assert(setting(a) == setting(b));
}

/// What depends on the kings is the same in two listings.
proof fn lemma_kings_relisted(a: GameState, b: GameState, white: bool)
    requires
        same_position(a, b),
        a.board.wf(),
        b.board.wf(),
        nearest_alike(counted(a), a.white_king_pos),
        nearest_alike(counted(a), a.black_king_pos),
    ensures
        advancement(a, white) == advancement(b, white),
        shelter(a, white) == shelter(b, white),
        king_attack(a, white) == king_attack(b, white),
        global_tropism(a, white) == global_tropism(b, white),
{
    lemma_counted_relisted(a, b);
}

/// Threats are the same in two listings.
proof fn lemma_threats_relisted(a: GameState, b: GameState, white: bool)
    requires
        same_position(a, b),
        a.board.wf(),
        b.board.wf(),
        nearest_alike(counted(a), a.white_king_pos),
        nearest_alike(counted(a), a.black_king_pos),
    ensures
        sum_of(counted(a), pawn_threat_term(a.board@, white)) == sum_of(
            counted(b),
            pawn_threat_term(b.board@, white),
        ),
        sum_of(counted(a), minor_threat_term(a.board@, white)) == sum_of(
            counted(b),
            minor_threat_term(b.board@, white),
        ),
{
    lemma_counted_relisted(a, b);
    assert forall|x: int, y: int| #[trigger]
        piece_at(a.board@, x, y) == piece_at(b.board@, x, y) by {
        lemma_square_relisted(a.board, b.board, x, y);
    }
    assert(pawn_threat_term(a.board@, white) =~= pawn_threat_term(b.board@, white));
    assert(minor_threat_term(a.board@, white) =~= minor_threat_term(b.board@, white));
}

/// Pawn structure is the same in two listings.
proof fn lemma_structure_relisted(a: GameState, b: GameState)
    requires
        same_position(a, b),
        a.board.wf(),
        b.board.wf(),
        nearest_alike(counted(a), a.white_king_pos),
        nearest_alike(counted(a), a.black_king_pos),
    ensures
        pawn_structure(counted_white_side(a), counted_black_side(a)) == pawn_structure(
            counted_white_side(b),
            counted_black_side(b),
        ),
        pawn_rows(counted_white_side(a), counted_black_side(a)) == pawn_rows(
            counted_white_side(b),
            counted_black_side(b),
        ),
{
    lemma_counted_relisted(a, b);
    assert forall|x: int, y: int| #[trigger]
        occupied(a.board@, x, y) == occupied(b.board@, x, y) by {
        lemma_square_relisted(a.board, b.board, x, y);
    }
    lemma_side_relisted(counted_white_side(a), counted_white_side(b));
    lemma_side_relisted(counted_black_side(a), counted_black_side(b));
}

/// The order in which a board lists its pieces matters neither to the score of
/// a position, nor to the terms that are recorded, nor to what evaluation keeps
/// for the next position.
pub proof fn evaluation_ignores_the_listing(
    a: GameState,
    b: GameState,
    terms: EndgameTerms,
    cache: Seq<PawnCacheBucket>,
    active: bool,
    features: EvalFeatures,
)
    requires
        same_position(a, b),
        a.board.wf(),
        b.board.wf(),
        nearest_alike(counted(a), a.white_king_pos),
        nearest_alike(counted(a), a.black_king_pos),
    ensures
        evaluation(a, terms, cache) == evaluation(b, terms, cache),
        inner_score(a, terms, cache, active) == inner_score(b, terms, cache, active),
        evaluation_rows(a, terms) == evaluation_rows(b, terms),
        cache_after(a, terms, cache, active) == cache_after(b, terms, cache, active),
        features_after(a, terms, features) == features_after(b, terms, features),
{
    lemma_activity_relisted(a, b);
    lemma_kings_relisted(a, b, true);
    lemma_kings_relisted(a, b, false);
    lemma_threats_relisted(a, b, true);
    lemma_threats_relisted(a, b, false);
    lemma_structure_relisted(a, b);
    lemma_counted_relisted(a, b);
    assert(king_rows(a) == king_rows(b));
    assert(threat_rows(a) == threat_rows(b));
    assert(threat_score(a) == threat_score(b));
}

} // verus!
